//! The configuration of an editable registry, how a new one is laid out,
//! and how its configuration file is opened and locked.
use vstd::prelude::*;
use vstd::string::StringExecFns;

use crate::error::Error;
use crate::record::{
    EncryptionAlgorithm, OwnedRecordConfigEncryption, OwnedRecordConfigParameters,
    OwnedRecordConfigParametersUnresolved, SplittingStrategy, Unresolved,
};

verus! {

/// The password hash that derives a record's hashed key; used with its
/// default parameters.
#[derive(Debug, Clone, Copy, PartialEq, Eq, Structural)]
pub enum PasswordHashAlgorithm {
    Argon2,
}

/// The key derivation that gives a record's succession nonce; used with its
/// default parameters.
#[derive(Debug, Clone, Copy, PartialEq, Eq, Structural)]
pub enum KdfAlgorithm {
    Hkdf,
}

/// The key derivation of a registry, with the predecessor nonce of its root record.
#[derive(Debug, Clone, PartialEq, Eq)]
pub struct RegistryConfigKdf {
    pub algorithm: KdfAlgorithm,
    pub root_predecessor_nonce: Vec<u8>,
}

/// The identity of a record before hashing: its name and the nonce handed
/// down from its predecessor.
#[derive(Debug, Clone, PartialEq, Eq)]
pub struct RecordKey {
    pub record_name: Vec<u8>,
    pub predecessor_nonce: Vec<u8>,
}

/// Represents a registry with cryptographic credentials for editing. All
/// paths are relative to the registry directory.
#[derive(Debug, Clone, PartialEq, Eq)]
pub struct OwnedRegistryConfig {
    pub hash: PasswordHashAlgorithm,
    pub kdf: RegistryConfigKdf,
    pub default_record_parameters: OwnedRecordConfigParametersUnresolved,
    pub root_record_path: String,
    /// This is where the resulting registry is generated, every time the
    /// `make` subcommand is executed.
    pub staging_directory_path: String,
    /// Published record fragments, one directory per revision.
    pub revisions_directory_path: String,
    /// The accumulation of all published revisions.
    pub published_directory_path: String,
    /// Files with signing keys, in the order the keys are loaded.
    pub signing_key_paths: Vec<String>,
}

/// The record parameters a new registry starts with: `Fill` splitting and
/// AES-256-GCM encryption with segments padded to 1024 bytes.
pub open spec fn spec_generated_record_parameters() -> OwnedRecordConfigParameters {
    OwnedRecordConfigParameters {
        splitting_strategy: SplittingStrategy::Fill {},
        encryption: Some(
            OwnedRecordConfigEncryption {
                algorithm: EncryptionAlgorithm::Aes256Gcm,
                segment_padding_to_bytes: 1024,
            },
        ),
    }
}

/// The directory holding a new registry's signing keys.
pub open spec fn spec_keys_directory() -> Seq<char> {
    seq!['k', 'e', 'y', 's']
}

/// Where a new registry keeps the signing key of the given type.
pub open spec fn spec_signing_key_path(key_type_name: Seq<char>) -> Seq<char> {
    spec_keys_directory() + seq!['/', 'k', 'e', 'y', '_'] + key_type_name + seq!['.', 'p', 'e', 'm']
}

/// The relative path of a new registry's signing key of the given type
/// (`keys/key_ed25519.pem`).
pub fn signing_key_path(key_type_name: &str) -> (r: String)
    ensures
        r@ == spec_signing_key_path(key_type_name@),
{
    proof {
        reveal_strlit("keys/key_");
        reveal_strlit(".pem");
    }
    let r = "keys/key_".to_owned().concat(key_type_name).concat(".pem");
    assert(r@ =~= spec_signing_key_path(key_type_name@));
    r
}

/// A copy of a byte string.
fn copy_bytes(v: &Vec<u8>) -> (r: Vec<u8>)
    ensures
        r@ == v@,
{
    vstd::slice::slice_to_vec(v.as_slice())
}

impl OwnedRegistryConfig {
    /// The configuration of a newly generated registry.
    pub fn generated(signing_key_paths: Vec<String>, root_predecessor_nonce: Vec<u8>) -> (r: Self)
        ensures
            r.hash == PasswordHashAlgorithm::Argon2,
            r.kdf.algorithm == KdfAlgorithm::Hkdf,
            r.kdf.root_predecessor_nonce == root_predecessor_nonce,
            r.default_record_parameters.is_complete(),
            r.default_record_parameters.spec_resolved() == spec_generated_record_parameters(),
            r.root_record_path@ == seq!['r', 'o', 'o', 't'],
            r.staging_directory_path@ == "target/staging"@,
            r.revisions_directory_path@ == "target/revisions"@,
            r.published_directory_path@ == "target/published"@,
            r.signing_key_paths == signing_key_paths,
    {
        proof {
            reveal_strlit("root");
        }
        let parameters = OwnedRecordConfigParameters {
            splitting_strategy: SplittingStrategy::Fill {},
            encryption: Some(
                OwnedRecordConfigEncryption {
                    algorithm: EncryptionAlgorithm::Aes256Gcm,
                    segment_padding_to_bytes: 1024,
                },
            ),
        };
        OwnedRegistryConfig {
            hash: PasswordHashAlgorithm::Argon2,
            kdf: RegistryConfigKdf { algorithm: KdfAlgorithm::Hkdf, root_predecessor_nonce },
            default_record_parameters: OwnedRecordConfigParametersUnresolved::from_resolved(
                parameters,
            ),
            root_record_path: "root".to_owned(),
            staging_directory_path: "target/staging".to_owned(),
            revisions_directory_path: "target/revisions".to_owned(),
            published_directory_path: "target/published".to_owned(),
            signing_key_paths,
        }
    }

    /// The key of the root record: an empty name and the registry's root
    /// predecessor nonce.
    pub fn get_root_record_key(&self) -> (r: RecordKey)
        ensures
            r.record_name@.len() == 0,
            r.predecessor_nonce@ == self.kdf.root_predecessor_nonce@,
    {
        RecordKey {
            record_name: Vec::new(),
            predecessor_nonce: copy_bytes(&self.kdf.root_predecessor_nonce),
        }
    }
}

/// What stands at the path where a registry is to be generated.
#[derive(Debug, Clone, Copy, PartialEq, Eq, Structural)]
pub enum GenerationTarget {
    Missing,
    EmptyDirectory,
    NonEmptyDirectory,
    NotADirectory,
}

/// What to do with the path before a registry is generated there.
#[derive(Debug, Clone, Copy, PartialEq, Eq, Structural)]
pub enum TargetPreparation {
    /// Create the directory.
    CreateDirectory,
    /// Generate into the directory as it is.
    UseDirectory,
}

/// Decides whether a registry may be generated at `path`: a directory that
/// is not empty is refused unless `overwrite` is set, and a path that is not
/// a directory is refused.
pub fn prepare_generation_target(path: &String, target: GenerationTarget, overwrite: bool) -> (r: Result<
    TargetPreparation,
    Error,
>)
    ensures
        target == GenerationTarget::Missing ==> r == Ok::<TargetPreparation, Error>(
            TargetPreparation::CreateDirectory,
        ),
        target == GenerationTarget::EmptyDirectory ==> r == Ok::<TargetPreparation, Error>(
            TargetPreparation::UseDirectory,
        ),
        target == GenerationTarget::NonEmptyDirectory && overwrite ==> r == Ok::<
            TargetPreparation,
            Error,
        >(TargetPreparation::UseDirectory),
        target == GenerationTarget::NonEmptyDirectory && !overwrite ==> (r matches Err(
            Error::RegistryAlreadyExists { path: p },
        ) && p@ == path@),
        target == GenerationTarget::NotADirectory ==> (r matches Err(Error::NotADirectory { path: p })
            && p@ == path@),
{
    match target {
        GenerationTarget::Missing => Ok(TargetPreparation::CreateDirectory),
        GenerationTarget::EmptyDirectory => Ok(TargetPreparation::UseDirectory),
        GenerationTarget::NonEmptyDirectory => {
            if overwrite {
                Ok(TargetPreparation::UseDirectory)
            } else {
                Err(Error::RegistryAlreadyExists { path: path.clone() })
            }
        },
        GenerationTarget::NotADirectory => Err(Error::NotADirectory { path: path.clone() }),
    }
}

/// The strength of the lock held on a registry's configuration file.
#[derive(Debug, Clone, Copy, PartialEq, Eq, Structural)]
pub enum FileLockType {
    /// Shared: concurrent readers are allowed.
    Read,
    /// Exclusive.
    Write,
}

/// How the configuration file is opened before it is locked.
#[derive(Debug, Clone, Copy, PartialEq, Eq, Structural)]
pub struct ConfigOpenOptions {
    pub read: bool,
    pub write: bool,
    pub truncate: bool,
    pub create: bool,
    pub create_new: bool,
}

impl ConfigOpenOptions {
    /// Opening to load a registry under a lock of the given type: written
    /// only under a write lock, never truncated or created.
    pub fn for_load(lock: FileLockType) -> (r: Self)
        ensures
            r == (ConfigOpenOptions {
                read: true,
                write: lock == FileLockType::Write,
                truncate: false,
                create: false,
                create_new: false,
            }),
    {
        ConfigOpenOptions {
            read: true,
            write: match lock {
                FileLockType::Read => false,
                FileLockType::Write => true,
            },
            truncate: false,
            create: false,
            create_new: false,
        }
    }

    /// Re-opening after the lock changes strength: a write lock truncates
    /// the file, a read lock only reads it.
    pub fn for_relock(lock: FileLockType) -> (r: Self)
        ensures
            r == (ConfigOpenOptions {
                read: true,
                write: lock == FileLockType::Write,
                truncate: lock == FileLockType::Write,
                create: false,
                create_new: false,
            }),
    {
        match lock {
            FileLockType::Read => ConfigOpenOptions {
                read: true,
                write: false,
                truncate: false,
                create: false,
                create_new: false,
            },
            FileLockType::Write => ConfigOpenOptions {
                read: true,
                write: true,
                truncate: true,
                create: false,
                create_new: false,
            },
        }
    }

    /// Opening while generating a registry: always truncated; created anew
    /// unless `overwrite` is set, in which case an existing file is reused.
    pub fn for_generate(overwrite: bool) -> (r: Self)
        ensures
            r == (ConfigOpenOptions {
                read: true,
                write: true,
                truncate: true,
                create: overwrite,
                create_new: !overwrite,
            }),
    {
        ConfigOpenOptions { read: true, write: true, truncate: true, create: overwrite, create_new: !overwrite }
    }
}

} // verus!
