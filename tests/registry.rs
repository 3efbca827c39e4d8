use rrr_make::error::Error;
use rrr_make::record::{
    EncryptionAlgorithm, OwnedRecordConfigEncryption, OwnedRecordConfigParameters,
    OwnedRecordConfigParametersUnresolved, SplittingStrategy,
};
use rrr_make::registry::{
    prepare_generation_target, signing_key_path, ConfigOpenOptions, FileLockType, GenerationTarget,
    KdfAlgorithm, OwnedRegistryConfig, PasswordHashAlgorithm, TargetPreparation,
};

#[test]
fn signing_key_path_is_under_keys() {
    assert_eq!(signing_key_path("ed25519"), "keys/key_ed25519.pem");
}

#[test]
fn new_registry_config() {
    let nonce = vec![7u8; 32];
    let config = OwnedRegistryConfig::generated(vec![signing_key_path("ed25519")], nonce.clone());
    assert_eq!(config.hash, PasswordHashAlgorithm::Argon2);
    assert_eq!(config.kdf.algorithm, KdfAlgorithm::Hkdf);
    assert_eq!(config.kdf.root_predecessor_nonce, nonce);
    assert_eq!(
        config.default_record_parameters,
        OwnedRecordConfigParametersUnresolved::from_resolved(OwnedRecordConfigParameters {
            splitting_strategy: SplittingStrategy::Fill {},
            encryption: Some(OwnedRecordConfigEncryption {
                algorithm: EncryptionAlgorithm::Aes256Gcm,
                segment_padding_to_bytes: 1024,
            }),
        })
    );
    assert_eq!(config.staging_directory_path, "target/staging");
    assert_eq!(config.revisions_directory_path, "target/revisions");
    assert_eq!(config.published_directory_path, "target/published");
    assert_eq!(config.root_record_path, "root");
    assert_eq!(config.signing_key_paths, vec!["keys/key_ed25519.pem".to_string()]);
}

#[test]
fn root_record_key_has_empty_name() {
    let config = OwnedRegistryConfig::generated(vec![], vec![1, 2, 3]);
    let key = config.get_root_record_key();
    assert!(key.record_name.is_empty());
    assert_eq!(key.predecessor_nonce, vec![1, 2, 3]);
}

#[test]
fn generation_target_rules() {
    let path = "out".to_string();
    assert_eq!(
        prepare_generation_target(&path, GenerationTarget::Missing, false),
        Ok(TargetPreparation::CreateDirectory)
    );
    assert_eq!(
        prepare_generation_target(&path, GenerationTarget::EmptyDirectory, false),
        Ok(TargetPreparation::UseDirectory)
    );
    assert_eq!(
        prepare_generation_target(&path, GenerationTarget::NonEmptyDirectory, true),
        Ok(TargetPreparation::UseDirectory)
    );
    assert_eq!(
        prepare_generation_target(&path, GenerationTarget::NonEmptyDirectory, false),
        Err(Error::RegistryAlreadyExists { path: "out".to_string() })
    );
    assert_eq!(
        prepare_generation_target(&path, GenerationTarget::NotADirectory, true),
        Err(Error::NotADirectory { path: "out".to_string() })
    );
}

#[test]
fn config_file_open_modes() {
    let read = ConfigOpenOptions::for_load(FileLockType::Read);
    assert!(read.read && !read.write && !read.truncate);
    let write = ConfigOpenOptions::for_load(FileLockType::Write);
    assert!(write.read && write.write && !write.truncate);
    assert!(ConfigOpenOptions::for_relock(FileLockType::Write).truncate);
    assert!(!ConfigOpenOptions::for_relock(FileLockType::Read).write);
    let fresh = ConfigOpenOptions::for_generate(false);
    assert!(fresh.create_new && !fresh.create && fresh.truncate);
    let again = ConfigOpenOptions::for_generate(true);
    assert!(!again.create_new && again.create && again.truncate);
}
