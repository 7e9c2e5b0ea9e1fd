//! Integrity checking for a circular linked list that is kept across the
//! records of a ledger, one node to a record, its nodes in ascending order of
//! their keys.
//!
//! - [`tool`] checks that items, each a key and the key of its successor,
//!   make one stretch of such a list, and names the two ends of the stretch.
//! - [`record`] reads and writes the bytes of a record.
//! - [`script`] decides whether a transaction may create, destroy or update a
//!   list, from what the host tells of the transaction.

pub mod record;
pub mod script;
pub mod tool;
