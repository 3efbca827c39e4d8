//! The commands of the command-line front end.
use vstd::prelude::*;

verus! {

/// A command of the command-line front end.
#[derive(Debug, Clone, PartialEq, Eq)]
pub enum Command {
    /// Creates a new source directory.
    New {
        /// The directory in which to create a new source directory.
        directory: String,
        /// Force existing files to be overwritten.
        force: bool,
    },
    /// Compiles a source directory into a registry.
    Make {
        /// Path to a source directory.
        input_directory: String,
        /// Force existing files to be overwritten.
        force: bool,
        /// Whether a new revision should be created in the published directory.
        publish: bool,
    },
}

} // verus!
