//! Compiles an editable source directory of named records into a versioned
//! registry: the source-tree model, the three-valued option encoding of its
//! configuration files, the registry layout, and the decisions of the emitter.
use vstd::prelude::*;

pub mod cmd;
pub mod emit;
pub mod error;
pub mod owned;
pub mod util;

pub use owned::record;
pub use owned::registry;
pub use emit::MakeRecursiveStatistics;

verus! {

} // verus!
