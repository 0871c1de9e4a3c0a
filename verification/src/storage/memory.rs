//! The in-memory key-value store and the error type of the host library.

use secret_cosmwasm_std::MemoryStorage;
use secret_cosmwasm_std::StdError;
use vstd::prelude::*;

verus! {

/// `secret_cosmwasm_std::MemoryStorage`, an ordered map from byte keys to
/// byte values. Its contents are known only through [`stored`].
#[verifier::external_type_specification]
#[verifier::external_body]
pub struct ExMemoryStorage(MemoryStorage);

/// `secret_cosmwasm_std::StdError`, carried through unread and mapped to
/// this crate's own error type.
#[verifier::external_type_specification]
#[verifier::external_body]
pub struct ExStdError(StdError);

/// The entries a `MemoryStorage` holds: the key-value pairs of its inner
/// map, as `get` reads them and `set` writes them.
pub uninterp spec fn stored(storage: MemoryStorage) -> Map<Seq<u8>, Seq<u8>>;

/// The entries of a store that holds nothing.
pub open spec fn no_entries() -> Map<Seq<u8>, Seq<u8>> {
    Map::empty()
}

/// `MemoryStorage::new` makes a store whose inner map is empty.
pub assume_specification[ MemoryStorage::new ]() -> (storage: MemoryStorage)
    ensures
        stored(storage) == no_entries(),
;

} // verus!
