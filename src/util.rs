//! Small helpers shared by the configuration types.
pub mod serde;
