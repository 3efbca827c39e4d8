//! Record configurations, in their partial (on-disk) and resolved forms, and
//! the source record tree.
use vstd::prelude::*;
use vstd::string::StringSliceAdditionalSpecFns;

use crate::error::Error;
use crate::util::serde::{DoubleOption, ExplicitOption};

verus! {

/// A partial configuration: every field may be left out, to be inherited
/// from a fallback.
pub trait Unresolved: Sized {
    type Resolved;

    /// Field by field, this side's value where present, else the fallback's.
    spec fn merged(self, fallback: Self) -> Self;

    /// Whether every field is set.
    spec fn is_complete(self) -> bool;

    /// The resolved form of a complete configuration.
    spec fn spec_resolved(self) -> Self::Resolved;

    fn or(self, fallback: Self) -> (r: Self)
        ensures
            r == self.merged(fallback),
    ;

    /// The resolved form if every field is set; otherwise the configuration itself.
    fn resolve(self) -> (r: Result<Self::Resolved, Self>)
        ensures
            self.is_complete() ==> r == Ok::<Self::Resolved, Self>(self.spec_resolved()),
            !self.is_complete() ==> r == Err::<Self::Resolved, Self>(self),
    ;
}

/// The encryption algorithm of a record's segments.
#[derive(Debug, Clone, Copy, PartialEq, Eq, Structural)]
pub enum EncryptionAlgorithm {
    Aes256Gcm,
}

/// Encryption parameters, each possibly left out.
#[derive(Debug, Clone, Copy, Default, PartialEq, Eq, Structural)]
pub struct OwnedRecordConfigEncryptionUnresolved {
    pub algorithm: Option<EncryptionAlgorithm>,
    pub segment_padding_to_bytes: Option<u64>,
}

/// Encryption parameters.
#[derive(Debug, Clone, Copy, PartialEq, Eq, Structural)]
pub struct OwnedRecordConfigEncryption {
    pub algorithm: EncryptionAlgorithm,
    pub segment_padding_to_bytes: u64,
}

/// How a record's data is divided into segments.
#[derive(Debug, Clone, Copy, PartialEq, Eq, Structural)]
pub enum SplittingStrategy {
    /// Automatically split the data into segments of maximum size.
    Fill {},
    /// Each segment is created from its corresponding numbered data file.
    Manual {},
}

impl Default for SplittingStrategy {
    fn default() -> (r: SplittingStrategy)
        ensures
            r == (SplittingStrategy::Fill {}),
    {
        SplittingStrategy::Fill {}
    }
}

/// A field of this side where set, else the fallback's.
pub open spec fn or_else<T>(this: Option<T>, fallback: Option<T>) -> Option<T> {
    match this {
        Some(v) => Some(v),
        None => fallback,
    }
}

fn option_or<T>(this: Option<T>, fallback: Option<T>) -> (r: Option<T>)
    ensures
        r == or_else(this, fallback),
{
    match this {
        Some(v) => Some(v),
        None => fallback,
    }
}

impl OwnedRecordConfigEncryptionUnresolved {
    /// The partial form of resolved parameters: every field set.
    pub fn from_resolved(value: OwnedRecordConfigEncryption) -> (r: Self)
        ensures
            r.is_complete(),
            r.spec_resolved() == value,
            r.algorithm == Some(value.algorithm),
            r.segment_padding_to_bytes == Some(value.segment_padding_to_bytes),
    {
        OwnedRecordConfigEncryptionUnresolved {
            algorithm: Some(value.algorithm),
            segment_padding_to_bytes: Some(value.segment_padding_to_bytes),
        }
    }
}

impl Unresolved for OwnedRecordConfigEncryptionUnresolved {
    type Resolved = OwnedRecordConfigEncryption;

    open spec fn merged(self, fallback: Self) -> Self {
        OwnedRecordConfigEncryptionUnresolved {
            algorithm: or_else(self.algorithm, fallback.algorithm),
            segment_padding_to_bytes: or_else(
                self.segment_padding_to_bytes,
                fallback.segment_padding_to_bytes,
            ),
        }
    }

    open spec fn is_complete(self) -> bool {
        self.algorithm is Some && self.segment_padding_to_bytes is Some
    }

    open spec fn spec_resolved(self) -> OwnedRecordConfigEncryption {
        OwnedRecordConfigEncryption {
            algorithm: self.algorithm.unwrap(),
            segment_padding_to_bytes: self.segment_padding_to_bytes.unwrap(),
        }
    }

    fn or(self, fallback: Self) -> (r: Self) {
        OwnedRecordConfigEncryptionUnresolved {
            algorithm: option_or(self.algorithm, fallback.algorithm),
            segment_padding_to_bytes: option_or(
                self.segment_padding_to_bytes,
                fallback.segment_padding_to_bytes,
            ),
        }
    }

    fn resolve(self) -> (r: Result<OwnedRecordConfigEncryption, Self>) {
        match (self.algorithm, self.segment_padding_to_bytes) {
            (Some(algorithm), Some(segment_padding_to_bytes)) => Ok(
                OwnedRecordConfigEncryption { algorithm, segment_padding_to_bytes },
            ),
            _ => Err(self),
        }
    }
}

/// Record parameters, each possibly left out to be inherited from the
/// registry's defaults. The encryption field is three-valued: left out,
/// explicitly none, or set.
#[derive(Debug, Clone, Copy, Default, PartialEq, Eq)]
pub struct OwnedRecordConfigParametersUnresolved {
    pub splitting_strategy: Option<SplittingStrategy>,
    pub encryption: DoubleOption<OwnedRecordConfigEncryptionUnresolved>,
}

/// Parameters can be defined in the registry config, and individually
/// overwritten in each record config.
#[derive(Debug, Clone, Copy, PartialEq, Eq)]
pub struct OwnedRecordConfigParameters {
    pub splitting_strategy: SplittingStrategy,
    pub encryption: Option<OwnedRecordConfigEncryption>,
}

impl OwnedRecordConfigParametersUnresolved {
    /// The partial form of resolved parameters: every field set, and no
    /// encryption written as an explicit none.
    pub fn from_resolved(value: OwnedRecordConfigParameters) -> (r: Self)
        ensures
            r.is_complete(),
            r.spec_resolved() == value,
            r.splitting_strategy == Some(value.splitting_strategy),
            r.encryption is Some,
            r.encryption.unwrap().spec_to_option() == (match value.encryption {
                None => None,
                Some(e) => Some(
                    OwnedRecordConfigEncryptionUnresolved {
                        algorithm: Some(e.algorithm),
                        segment_padding_to_bytes: Some(e.segment_padding_to_bytes),
                    },
                ),
            }),
    {
        let encryption = match value.encryption {
            None => ExplicitOption::none(),
            Some(e) => ExplicitOption::Value(OwnedRecordConfigEncryptionUnresolved::from_resolved(e)),
        };
        OwnedRecordConfigParametersUnresolved {
            splitting_strategy: Some(value.splitting_strategy),
            encryption: Some(encryption),
        }
    }
}

impl Unresolved for OwnedRecordConfigParametersUnresolved {
    type Resolved = OwnedRecordConfigParameters;

    open spec fn merged(self, fallback: Self) -> Self {
        OwnedRecordConfigParametersUnresolved {
            splitting_strategy: or_else(self.splitting_strategy, fallback.splitting_strategy),
            encryption: or_else(self.encryption, fallback.encryption),
        }
    }

    open spec fn is_complete(self) -> bool {
        &&& self.splitting_strategy is Some
        &&& self.encryption is Some
        &&& match self.encryption.unwrap() {
            ExplicitOption::Nothing(_) => true,
            ExplicitOption::Value(e) => e.is_complete(),
        }
    }

    open spec fn spec_resolved(self) -> OwnedRecordConfigParameters {
        OwnedRecordConfigParameters {
            splitting_strategy: self.splitting_strategy.unwrap(),
            encryption: match self.encryption.unwrap() {
                ExplicitOption::Nothing(_) => None,
                ExplicitOption::Value(e) => Some(e.spec_resolved()),
            },
        }
    }

    fn or(self, fallback: Self) -> (r: Self) {
        OwnedRecordConfigParametersUnresolved {
            splitting_strategy: option_or(self.splitting_strategy, fallback.splitting_strategy),
            encryption: option_or(self.encryption, fallback.encryption),
        }
    }

    fn resolve(self) -> (r: Result<OwnedRecordConfigParameters, Self>) {
        match (self.splitting_strategy, self.encryption) {
            (Some(splitting_strategy), Some(ExplicitOption::Nothing(_))) => Ok(
                OwnedRecordConfigParameters { splitting_strategy, encryption: None },
            ),
            (Some(splitting_strategy), Some(ExplicitOption::Value(encryption))) => {
                match encryption.resolve() {
                    Ok(resolved) => Ok(
                        OwnedRecordConfigParameters {
                            splitting_strategy,
                            encryption: Some(resolved),
                        },
                    ),
                    Err(_) => Err(self),
                }
            },
            _ => Err(self),
        }
    }
}

/// A record's metadata. The creation time is kept as its RFC 3339 text.
#[derive(Debug, Clone, PartialEq, Eq)]
pub struct OwnedRecordMetadata {
    pub created_at: Option<String>,
}

/// A record configuration as stored on disk: its parameters may be left out.
#[derive(Debug, Clone, PartialEq, Eq)]
pub struct OwnedRecordConfigUnresolved {
    pub name: Vec<u8>,
    pub metadata: OwnedRecordMetadata,
    pub parameters: OwnedRecordConfigParametersUnresolved,
}

/// A record configuration with every parameter set.
#[derive(Debug, Clone, PartialEq, Eq)]
pub struct OwnedRecordConfig {
    pub name: Vec<u8>,
    pub metadata: OwnedRecordMetadata,
    pub parameters: OwnedRecordConfigParameters,
}

impl OwnedRecordConfigUnresolved {
    /// Merges the parameters with `parameters` as the fallback, and resolves
    /// them; if some parameter is still unset, gives back the merged
    /// configuration instead.
    pub fn try_resolve_with(self, parameters: OwnedRecordConfigParametersUnresolved) -> (r: Result<
        OwnedRecordConfig,
        OwnedRecordConfigUnresolved,
    >)
        ensures
            self.parameters.merged(parameters).is_complete() <==> r is Ok,
            r matches Ok(c) ==> c.name == self.name && c.metadata == self.metadata
                && c.parameters == self.parameters.merged(parameters).spec_resolved(),
            r matches Err(u) ==> u.name == self.name && u.metadata == self.metadata
                && u.parameters == self.parameters.merged(parameters),
    {
        match self.parameters.or(parameters).resolve() {
            Ok(resolved) => Ok(
                OwnedRecordConfig { name: self.name, metadata: self.metadata, parameters: resolved },
            ),
            Err(unresolved) => Err(
                OwnedRecordConfigUnresolved {
                    name: self.name,
                    metadata: self.metadata,
                    parameters: unresolved,
                },
            ),
        }
    }

    /// The stored form of a resolved configuration: every parameter written out.
    pub fn from_resolved(value: OwnedRecordConfig) -> (r: Self)
        ensures
            r.name == value.name,
            r.metadata == value.metadata,
            r.parameters.is_complete(),
            r.parameters.spec_resolved() == value.parameters,
    {
        OwnedRecordConfigUnresolved {
            name: value.name,
            metadata: value.metadata,
            parameters: OwnedRecordConfigParametersUnresolved::from_resolved(value.parameters),
        }
    }

    /// The configuration of a record directory without a `record.toml`: named
    /// after the directory's final path segment (`None` when it is missing or
    /// not UTF-8), created at the given time, with every parameter left out.
    pub fn inferred(path_segment: Option<&str>, created_at: String) -> (r: Result<Self, Error>)
        ensures
            path_segment is None ==> r == Err::<Self, Error>(Error::InvalidPathSegment),
            path_segment matches Some(segment) ==> (r matches Ok(c) && c.name@ == segment.spec_bytes()
                && c.metadata.created_at == Some(created_at)
                && c.parameters.splitting_strategy is None && c.parameters.encryption is None),
    {
        match path_segment {
            None => Err(Error::InvalidPathSegment),
            Some(segment) => {
                let name = vstd::slice::slice_to_vec(segment.as_bytes());
                Ok(
                    OwnedRecordConfigUnresolved {
                        name,
                        metadata: OwnedRecordMetadata { created_at: Some(created_at) },
                        parameters: OwnedRecordConfigParametersUnresolved {
                            splitting_strategy: None,
                            encryption: None,
                        },
                    },
                )
            },
        }
    }
}

/// A record configuration saved in its stored form (every parameter
/// written out, as `from_resolved` gives it) resolves back to the same
/// parameters, whatever the registry's defaults.
pub proof fn lemma_saved_config_reloads(
    value: OwnedRecordConfigParameters,
    stored: OwnedRecordConfigParametersUnresolved,
    defaults: OwnedRecordConfigParametersUnresolved,
)
    requires
        stored.is_complete(),
        stored.spec_resolved() == value,
    ensures
        stored.merged(defaults) == stored,
        stored.merged(defaults).is_complete(),
        stored.merged(defaults).spec_resolved() == value,
{
}

/// The RFC 3339 text chrono writes for an instant given in seconds and
/// nanoseconds since the Unix epoch, in UTC; none when the instant is out
/// of chrono's range.
pub uninterp spec fn utc_rfc3339_text(unix_seconds: int, nanoseconds: int) -> Option<Seq<char>>;

/// Relies on chrono's `DateTime::<Utc>::from_timestamp` and
/// `DateTime::to_rfc3339`: the RFC 3339 text of a UTC instant, or none when
/// the instant is out of range. The result depends on the arguments alone.
#[verifier::external_body]
fn utc_rfc3339(unix_seconds: i64, nanoseconds: u32) -> (r: Option<String>)
    ensures
        match r {
            Some(text) => utc_rfc3339_text(unix_seconds as int, nanoseconds as int) == Some(text@),
            None => utc_rfc3339_text(unix_seconds as int, nanoseconds as int) is None,
        },
{
    match chrono::DateTime::from_timestamp(unix_seconds, nanoseconds) {
        Some(d) => Some(d.to_rfc3339()),
        None => None,
    }
}

impl OwnedRecordConfigUnresolved {
    /// The configuration of a record directory without a `record.toml`,
    /// created at the given instant (seconds and nanoseconds since the Unix
    /// epoch, as the file system reports it); the creation time is kept as
    /// its RFC 3339 text.
    pub fn inferred_at(path_segment: Option<&str>, created_unix_seconds: i64, created_nanoseconds: u32) -> (r:
        Result<Self, Error>)
        ensures
            path_segment is None ==> r == Err::<Self, Error>(Error::InvalidPathSegment),
            path_segment is Some && utc_rfc3339_text(created_unix_seconds as int, created_nanoseconds as int)
                is None ==> r == Err::<Self, Error>(Error::InvalidTimestamp),
            path_segment matches Some(segment) ==> (utc_rfc3339_text(
                created_unix_seconds as int,
                created_nanoseconds as int,
            ) matches Some(text) ==> (r matches Ok(c) && c.name@ == segment.spec_bytes()
                && c.metadata.created_at is Some && c.metadata.created_at.unwrap()@ == text
                && c.parameters.splitting_strategy is None && c.parameters.encryption is None)),
    {
        if path_segment.is_none() {
            return Err(Error::InvalidPathSegment);
        }
        match utc_rfc3339(created_unix_seconds, created_nanoseconds) {
            Some(text) => OwnedRecordConfigUnresolved::inferred(path_segment, text),
            None => Err(Error::InvalidTimestamp),
        }
    }
}

/// Whether two byte strings are equal.
pub fn bytes_eq(a: &[u8], b: &[u8]) -> (r: bool)
    ensures
        r == (a@ == b@),
{
    if a.len() != b.len() {
        return false;
    }
    let mut i: usize = 0;
    while i < a.len()
        invariant
            a@.len() == b@.len(),
            i <= a@.len(),
            forall|j: int| 0 <= j < i ==> a@[j] == b@[j],
        decreases a@.len() - i,
    {
        if a[i] != b[i] {
            return false;
        }
        i = i + 1;
    }
    assert(a@ =~= b@);
    true
}

/// A record of the source directory, with the records that succeed it.
#[derive(Debug)]
pub struct OwnedRecord {
    pub directory_path: String,
    pub config: OwnedRecordConfig,
    pub successive_records: Vec<OwnedRecord>,
}

impl OwnedRecord {
    /// No two direct successive records share a name.
    pub open spec fn successive_names_unique(&self) -> bool {
        forall|i: int, j: int|
            0 <= i < j < self.successive_records@.len() ==> (#[trigger] self.successive_records@[i]).config.name@
                != (#[trigger] self.successive_records@[j]).config.name@
    }

    /// In this record and every record after it, no two direct successive
    /// records share a name.
    pub open spec fn names_unique_throughout(&self) -> bool
        decreases self,
    {
        &&& self.successive_names_unique()
        &&& forall|i: int| 0 <= i < self.successive_records@.len() ==> {
            &&& decreases_to!(self => self.successive_records@[i])
            &&& (#[trigger] self.successive_records@[i]).names_unique_throughout()
        }
    }

    /// Some direct successive record is named `name`.
    pub open spec fn has_successive_named(&self, name: Seq<u8>) -> bool {
        exists|i: int| 0 <= i < self.successive_records@.len() && (#[trigger] self.successive_records@[i]).config.name@ == name
    }

    /// A record without successive records.
    pub fn new(directory_path: String, config: OwnedRecordConfig) -> (r: Self)
        ensures
            r.directory_path == directory_path,
            r.config == config,
            r.successive_records@.len() == 0,
            r.successive_names_unique(),
            r.names_unique_throughout(),
    {
        OwnedRecord { directory_path, config, successive_records: Vec::new() }
    }

    /// The record of a directory, given its stored configuration: the
    /// parameters are resolved against the registry's defaults; successive
    /// records are added afterwards.
    pub fn from_stored_config(
        defaults: OwnedRecordConfigParametersUnresolved,
        directory_path: String,
        config: OwnedRecordConfigUnresolved,
    ) -> (r: Result<Self, Error>)
        ensures
            !config.parameters.merged(defaults).is_complete() ==> r == Err::<Self, Error>(
                Error::IncompleteRecordParameters,
            ),
            config.parameters.merged(defaults).is_complete() ==> (r matches Ok(rec)
                && rec.directory_path == directory_path && rec.config.name == config.name
                && rec.config.metadata == config.metadata
                && rec.config.parameters == config.parameters.merged(defaults).spec_resolved()
                && rec.successive_records@.len() == 0 && rec.names_unique_throughout()),
    {
        match config.try_resolve_with(defaults) {
            Ok(resolved) => Ok(OwnedRecord::new(directory_path, resolved)),
            Err(_) => Err(Error::IncompleteRecordParameters),
        }
    }

    /// Whether some direct successive record is named `name`.
    pub fn has_successive_record_named(&self, name: &[u8]) -> (r: bool)
        ensures
            r == self.has_successive_named(name@),
    {
        let n = self.successive_records.len();
        let mut i: usize = 0;
        while i < n
            invariant
                n == self.successive_records@.len(),
                i <= n,
                forall|j: int| 0 <= j < i ==> (#[trigger] self.successive_records@[j]).config.name@ != name@,
            decreases n - i,
        {
            if bytes_eq(self.successive_records[i].config.name.as_slice(), name) {
                return true;
            }
            i = i + 1;
        }
        false
    }

    /// Adds a successive record, unless one of the same name is there already.
    pub fn push_successive_record(&mut self, record: OwnedRecord) -> (r: Result<(), Error>)
        ensures
            old(self).has_successive_named(record.config.name@) ==> *final(self) == *old(self)
                && (r matches Err(Error::DuplicateSuccessiveRecord { parent, name })
                && parent@ == old(self).directory_path@ && name == record.config.name),
            !old(self).has_successive_named(record.config.name@) ==> r is Ok
                && final(self).directory_path == old(self).directory_path
                && final(self).config == old(self).config
                && final(self).successive_records@ == old(self).successive_records@.push(record),
            old(self).successive_names_unique() ==> final(self).successive_names_unique(),
            old(self).names_unique_throughout() && record.names_unique_throughout()
                ==> final(self).names_unique_throughout(),
    {
        if self.has_successive_record_named(record.config.name.as_slice()) {
            return Err(
                Error::DuplicateSuccessiveRecord {
                    parent: self.directory_path.clone(),
                    name: record.config.name,
                },
            );
        }
        self.successive_records.push(record);
        Ok(())
    }
}

} // verus!
