use rrr_make::error::Error;
use rrr_make::record::{
    EncryptionAlgorithm, OwnedRecord, OwnedRecordConfig, OwnedRecordConfigEncryption,
    OwnedRecordConfigEncryptionUnresolved, OwnedRecordConfigParameters,
    OwnedRecordConfigParametersUnresolved, OwnedRecordConfigUnresolved, OwnedRecordMetadata,
    SplittingStrategy, Unresolved,
};
use rrr_make::util::serde::ExplicitOption;

fn aes(padding: u64) -> OwnedRecordConfigEncryption {
    OwnedRecordConfigEncryption { algorithm: EncryptionAlgorithm::Aes256Gcm, segment_padding_to_bytes: padding }
}

fn defaults() -> OwnedRecordConfigParametersUnresolved {
    OwnedRecordConfigParametersUnresolved::from_resolved(OwnedRecordConfigParameters {
        splitting_strategy: SplittingStrategy::Fill {},
        encryption: Some(aes(1024)),
    })
}

fn unresolved(name: &str, parameters: OwnedRecordConfigParametersUnresolved) -> OwnedRecordConfigUnresolved {
    OwnedRecordConfigUnresolved {
        name: name.as_bytes().to_vec(),
        metadata: OwnedRecordMetadata { created_at: None },
        parameters,
    }
}

fn record(path: &str, name: &str) -> OwnedRecord {
    OwnedRecord::from_stored_config(defaults(), path.to_string(), unresolved(name, Default::default())).unwrap()
}

#[test]
fn splitting_strategy_defaults_to_fill() {
    assert_eq!(SplittingStrategy::default(), SplittingStrategy::Fill {});
}

#[test]
fn encryption_merges_field_by_field() {
    let this = OwnedRecordConfigEncryptionUnresolved { algorithm: None, segment_padding_to_bytes: Some(16) };
    let fallback = OwnedRecordConfigEncryptionUnresolved {
        algorithm: Some(EncryptionAlgorithm::Aes256Gcm),
        segment_padding_to_bytes: Some(1024),
    };
    let merged = this.or(fallback);
    assert_eq!(merged.segment_padding_to_bytes, Some(16));
    assert_eq!(merged.resolve(), Ok(aes(16)));
    assert_eq!(this.resolve(), Err(this));
}

#[test]
fn unset_parameters_inherit_defaults() {
    let config = unresolved("leaf", Default::default()).try_resolve_with(defaults()).unwrap();
    assert_eq!(config.name, b"leaf".to_vec());
    assert_eq!(config.parameters.splitting_strategy, SplittingStrategy::Fill {});
    assert_eq!(config.parameters.encryption, Some(aes(1024)));
}

#[test]
fn explicit_none_overrides_default_encryption() {
    let parameters = OwnedRecordConfigParametersUnresolved {
        splitting_strategy: Some(SplittingStrategy::Manual {}),
        encryption: Some(ExplicitOption::none()),
    };
    let config = unresolved("leaf", parameters).try_resolve_with(defaults()).unwrap();
    assert_eq!(config.parameters.splitting_strategy, SplittingStrategy::Manual {});
    assert_eq!(config.parameters.encryption, None);
}

#[test]
fn own_encryption_is_taken_whole() {
    let parameters = OwnedRecordConfigParametersUnresolved {
        splitting_strategy: None,
        encryption: Some(ExplicitOption::Value(OwnedRecordConfigEncryptionUnresolved::from_resolved(aes(64)))),
    };
    let config = unresolved("leaf", parameters).try_resolve_with(defaults()).unwrap();
    assert_eq!(config.parameters.encryption, Some(aes(64)));
}

#[test]
fn incomplete_parameters_are_refused() {
    let empty = OwnedRecordConfigParametersUnresolved::default();
    let back = unresolved("leaf", empty).try_resolve_with(empty).unwrap_err();
    assert_eq!(back.parameters, empty);
    let partial = OwnedRecordConfigParametersUnresolved {
        splitting_strategy: Some(SplittingStrategy::Fill {}),
        encryption: Some(ExplicitOption::Value(OwnedRecordConfigEncryptionUnresolved {
            algorithm: Some(EncryptionAlgorithm::Aes256Gcm),
            segment_padding_to_bytes: None,
        })),
    };
    assert_eq!(partial.resolve(), Err(partial));
    let result = OwnedRecord::from_stored_config(empty, "root".to_string(), unresolved("root", partial));
    assert_eq!(result.unwrap_err(), Error::IncompleteRecordParameters);
}

#[test]
fn resolved_config_round_trips_through_stored_form() {
    let config = OwnedRecordConfig {
        name: b"leaf".to_vec(),
        metadata: OwnedRecordMetadata { created_at: Some("2024-01-02T03:04:05Z".to_string()) },
        parameters: OwnedRecordConfigParameters { splitting_strategy: SplittingStrategy::Manual {}, encryption: None },
    };
    let stored = OwnedRecordConfigUnresolved::from_resolved(config.clone());
    assert_eq!(stored.parameters.encryption, Some(ExplicitOption::none()));
    let back = stored.try_resolve_with(defaults()).unwrap();
    assert_eq!(back, config);
}

#[test]
fn inferred_config_takes_directory_name() {
    let config = OwnedRecordConfigUnresolved::inferred(Some("leaf"), "2024-01-02T03:04:05+00:00".to_string()).unwrap();
    assert_eq!(config.name, b"leaf".to_vec());
    assert_eq!(config.metadata.created_at, Some("2024-01-02T03:04:05+00:00".to_string()));
    assert_eq!(config.parameters, OwnedRecordConfigParametersUnresolved::default());
    assert_eq!(
        OwnedRecordConfigUnresolved::inferred(None, String::new()),
        Err(Error::InvalidPathSegment)
    );
}

#[test]
fn duplicate_child_name_is_refused() {
    let mut root = record("src/root", "root");
    assert_eq!(root.push_successive_record(record("src/root/a/leaf", "leaf")), Ok(()));
    assert_eq!(root.push_successive_record(record("src/root/other", "other")), Ok(()));
    let result = root.push_successive_record(record("src/root/b/leaf", "leaf"));
    assert_eq!(
        result,
        Err(Error::DuplicateSuccessiveRecord { parent: "src/root".to_string(), name: b"leaf".to_vec() })
    );
    assert_eq!(root.successive_records.len(), 2);
    assert!(root.has_successive_record_named(b"other"));
    assert!(!root.has_successive_record_named(b"missing"));
}

#[test]
fn inferred_config_records_creation_time() {
    let config = OwnedRecordConfigUnresolved::inferred_at(Some("leaf"), 1704164645, 0).unwrap();
    assert_eq!(config.name, b"leaf".to_vec());
    assert_eq!(config.metadata.created_at, Some("2024-01-02T03:04:05+00:00".to_string()));
    assert_eq!(
        OwnedRecordConfigUnresolved::inferred_at(Some("leaf"), i64::MAX, 0),
        Err(Error::InvalidTimestamp)
    );
    assert_eq!(OwnedRecordConfigUnresolved::inferred_at(None, 0, 0), Err(Error::InvalidPathSegment));
}
