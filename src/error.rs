//! The errors of the library.
use vstd::prelude::*;

verus! {

/// Why the data files of a record directory were refused.
#[derive(Debug, Clone, Copy, PartialEq, Eq, Structural)]
pub enum DataFilesMalformed {
    /// Indexed (`data.<N>.<ext>`) and non-indexed (`data`, `data.<ext>`) files side by side.
    MixedIndexing,
    /// Two non-indexed data files.
    DuplicateNonIndexed,
    /// Two data files with the same index.
    DuplicateIndex { index: usize },
    /// The indexes do not run contiguously from the smallest one; the first
    /// index that is missing.
    MissingIndex { index: usize },
}

/// The errors of the library.
#[derive(Debug, Clone, PartialEq, Eq)]
pub enum Error {
    /// Two successive records of one parent have the same name.
    DuplicateSuccessiveRecord { parent: String, name: Vec<u8> },
    /// A registry is to be generated in a directory that is not empty.
    RegistryAlreadyExists { path: String },
    /// A registry is to be generated at a path that is not a directory.
    NotADirectory { path: String },
    /// Some record parameter is set neither by the record nor by the registry's defaults.
    IncompleteRecordParameters,
    /// A record name cannot be taken from the directory's final path segment
    /// (it is missing, or not valid UTF-8).
    InvalidPathSegment,
    /// The data files of a record break the naming rules.
    DataFilesMalformed(DataFilesMalformed),
    /// A record that is read has no data file.
    DataFileMissing,
    /// A creation time is not an RFC 3339 timestamp.
    InvalidTimestamp,
    /// A record's latest version is the largest there is: no newer one can be written.
    VersionsExhausted,
}

} // verus!
