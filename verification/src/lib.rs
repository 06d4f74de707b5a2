//! Ledger-resident record store for a messaging application.
//!
//! The library creates, addresses, and validates two kinds of persistent
//! records — direct messages and group definitions — using deterministic,
//! collision-resistant addressing instead of caller-supplied identifiers.
//! The underlying ledger is modelled as an opaque keyed byte-store that the
//! core reads and writes through allocate and fetch operations.

pub mod addressing;
pub mod codec;
pub mod error;
pub mod instruction;
pub mod ledger;
pub mod processor;
pub mod state;

pub use error::ChatError;
