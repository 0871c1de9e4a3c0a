//! What the host tells the library about a call.

use vstd::prelude::*;

verus! {

/// An amount of one currency.
#[derive(Clone, Debug, PartialEq)]
pub struct Coin {
    pub denom: String,
    pub amount: u128,
}

/// The circumstances of one call: who makes it, when, and with which
/// funds attached.
#[derive(Clone, Debug, PartialEq)]
pub struct Env {
    /// The address of the caller.
    pub sender: String,
    /// The canonical form of the caller's address, under which the
    /// caller's records are filed.
    pub sender_canonical: Vec<u8>,
    /// The logical clock of the call.
    pub block_time: u64,
    /// The funds attached to the call.
    pub sent_funds: Vec<Coin>,
    /// The code hash of the contract that is called.
    pub contract_code_hash: String,
}

} // verus!
