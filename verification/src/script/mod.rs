//! The script that guards the list: it looks at the records of a transaction
//! that are under it and accepts the transaction or not.

pub mod entry;
pub mod error;
pub mod host;
pub mod laws;
pub mod operations;
pub mod unique_id;
