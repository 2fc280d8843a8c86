//! Storage-key codec for an IBC module over a sorted key-value ledger.
//!
//! Structured protocol identifiers (clients, connections, channels, packet
//! sequences, denomination traces) are encoded into flat hierarchical storage
//! keys under a reserved module namespace, and decoded back exactly. A
//! truncated cryptographic digest derives a stable internal token identity
//! from a denomination trace, and a layered lookup resolves per-token
//! mint/throughput limits against module-wide defaults.

use vstd::prelude::*;

pub mod codec;
pub mod hash;
pub mod ident;
pub mod laws;
pub mod key;
pub mod limits;
pub mod mint;

verus! {

/// Errors reported by the key codec.
#[derive(Debug)]
pub enum Error {
    /// The key-path syntax itself is malformed.
    StorageKey(String),
    /// A syntactically valid key does not match the shape expected by a
    /// decoder; carries the offending key's textual form.
    InvalidKey(String),
    /// Reserved for port-capability validation.
    InvalidPortCapability(String),
}

} // verus!
