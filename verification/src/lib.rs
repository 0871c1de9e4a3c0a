//! Verified core of two small on-chain applications: a token-sale
//! accumulator (`market`) and a time-gated virtual-pet feeding game (`pet`).
//!
//! Persistent data lives in a byte-keyed store. Records are kept in
//! per-owner append-only lists laid out under length-prefixed namespaces;
//! the contracts in this crate are stated over the map of raw entries that
//! the store holds.

pub mod env;
pub mod error;
pub mod market;
pub mod pet;
pub mod storage;
