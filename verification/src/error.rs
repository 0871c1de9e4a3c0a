//! The errors with which a call can end.

use vstd::prelude::*;

verus! {

/// Why a call failed. A failed call is final: nothing is retried.
#[derive(Clone, Copy, Debug, PartialEq, Eq, Structural)]
pub enum ContractError {
    /// The caller is not the one this operation expects.
    Unauthorized,
    /// Some of the attached funds are not in the accepted currency.
    InvalidDenomination,
    /// The payload or the parameters of the call are malformed.
    InvalidInput,
    /// The attached funds add up to nothing.
    EmptyDeposit,
    /// The singleton, the owner's list or the id does not exist.
    NotFound,
    /// The pet died before this feed attempt.
    AlreadyDead,
    /// The feed attempt falls outside the feed window.
    NotFeedingTime,
    /// Stored data could not be written or read back.
    SerializationError,
    /// A counter or an amount would leave its integer range.
    Overflow,
}

} // verus!
