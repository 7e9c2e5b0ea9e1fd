//! The record codec: byte strings and records as the ledger holds them.

pub mod buffer;
pub mod bytes;
pub mod demo_data;
pub mod error;
pub mod layout;
pub mod number;
pub mod ordering;
pub mod text;
