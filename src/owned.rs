//! The editable side: source records and the registry they belong to.
pub mod data;
pub mod record;
pub mod registry;
