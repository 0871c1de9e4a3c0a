//! The game's singleton state: its configuration and the counter of all
//! pets that were created, both kept under the `state` namespace.

use crate::error::ContractError;
use crate::storage::keys::length_prefixed;
use crate::storage::memory::stored;
use secret_cosmwasm_std::MemoryStorage;
use secret_cosmwasm_std::ReadonlyStorage;
use secret_cosmwasm_std::StdError;
use secret_cosmwasm_std::Storage;
use secret_cosmwasm_storage::PrefixedStorage;
use secret_cosmwasm_storage::ReadonlyPrefixedStorage;
use secret_toolkit::serialization::Bincode2;
use secret_toolkit::serialization::Serde;
use vstd::bytes::lemma_auto_spec_u64_to_from_le_bytes;
use vstd::bytes::spec_u64_from_le_bytes;
use vstd::bytes::spec_u64_to_le_bytes;
use vstd::prelude::*;

verus! {

/// `b"config"`: the key of the configuration slot.
pub const CONFIG_KEY: [u8; 6] = [99, 111, 110, 102, 105, 103];

/// `b"pets_count"`: the key of the counter of all pets.
pub const PETS_COUNT_KEY: [u8; 10] = [112, 101, 116, 115, 95, 99, 111, 117, 110, 116];

/// `b"state"`: the namespace of the singleton slots.
pub const PREFIX_STATE: [u8; 5] = [115, 116, 97, 116, 101];

/// `b"pets"`: the outer namespace of the per-owner pet lists.
pub const PREFIX_PETS: [u8; 4] = [112, 101, 116, 115];

/// The token contract whose transfers feed pets.
#[derive(Clone, Debug, PartialEq)]
pub struct SecretToken {
    pub address: String,
    pub hash: String,
    pub viewing_key: String,
}

/// The game's configuration.
#[derive(Clone, Debug, PartialEq)]
pub struct ContractConfig {
    pub accepted_token: SecretToken,
    pub admin: Option<String>,
}

/// The mathematical value of a [`SecretToken`].
pub struct SecretTokenView {
    pub address: Seq<char>,
    pub hash: Seq<char>,
    pub viewing_key: Seq<char>,
}

/// The mathematical value of a [`ContractConfig`].
pub struct ContractConfigView {
    pub accepted_token: SecretTokenView,
    pub admin: Option<Seq<char>>,
}

impl View for SecretToken {
    type V = SecretTokenView;

    open spec fn view(&self) -> SecretTokenView {
        SecretTokenView { address: self.address@, hash: self.hash@, viewing_key: self.viewing_key@ }
    }
}

impl SecretToken {
    /// A copy of the token reference.
    pub fn clone_token(&self) -> (copy: SecretToken)
        ensures
            copy@ == self@,
    {
        SecretToken {
            address: self.address.clone(),
            hash: self.hash.clone(),
            viewing_key: self.viewing_key.clone(),
        }
    }
}

impl View for ContractConfig {
    type V = ContractConfigView;

    open spec fn view(&self) -> ContractConfigView {
        ContractConfigView {
            accepted_token: self.accepted_token@,
            admin: match self.admin {
                Some(admin) => Some(admin@),
                None => None,
            },
        }
    }
}

/// The bytes `secret_toolkit::serialization::Bincode2::serialize` gives
/// for a configuration, written as the tuple
/// `((address, hash, viewing_key), admin)`.
pub uninterp spec fn encoded_config(config: ContractConfigView) -> Seq<u8>;

/// What `secret_toolkit::serialization::Bincode2::deserialize` reads from
/// `bytes` as such a tuple, or `None` where it fails.
pub uninterp spec fn decoded_config(bytes: Seq<u8>) -> Option<ContractConfigView>;

/// The bytes of a counter in the store: the eight bytes of the number,
/// lowest first.
pub open spec fn encoded_count(count: u64) -> Seq<u8> {
    spec_u64_to_le_bytes(count)
}

/// The counter that `bytes` hold: the number of their first eight bytes,
/// lowest first; `None` where there are fewer than eight.
pub open spec fn decoded_count(bytes: Seq<u8>) -> Option<u64> {
    if bytes.len() >= 8 {
        Some(spec_u64_from_le_bytes(bytes.subrange(0, 8)))
    } else {
        None
    }
}

/// The bytes of a counter hold that counter.
pub proof fn lemma_count_round_trip(count: u64)
    ensures
        decoded_count(encoded_count(count)) == Some(count),
{
    lemma_auto_spec_u64_to_from_le_bytes();
    assert(encoded_count(count).subrange(0, 8) =~= encoded_count(count));
}

/// The raw key of the slot `key` of the namespace `namespace`.
pub open spec fn slot_in(namespace: Seq<u8>, key: Seq<u8>) -> Seq<u8> {
    length_prefixed(namespace) + key
}

/// The raw key of a slot of the `state` namespace.
pub open spec fn state_key(key: Seq<u8>) -> Seq<u8> {
    slot_in(PREFIX_STATE@, key)
}

/// The configuration that the entries `m` hold: `Err(NotFound)` where the
/// slot is empty, `Err(SerializationError)` where it cannot be decoded.
pub open spec fn stored_config(m: Map<Seq<u8>, Seq<u8>>) -> Result<
    ContractConfigView,
    ContractError,
> {
    if !m.contains_key(state_key(CONFIG_KEY@)) {
        Err(ContractError::NotFound)
    } else {
        match decoded_config(m[state_key(CONFIG_KEY@)]) {
            Some(config) => Ok(config),
            None => Err(ContractError::SerializationError),
        }
    }
}

/// The counter that the entries `m` hold, where it can be told: zero
/// where the slot is empty, `None` where the slot cannot be decoded.
pub open spec fn readable_count(m: Map<Seq<u8>, Seq<u8>>) -> Option<u64> {
    if !m.contains_key(state_key(PETS_COUNT_KEY@)) {
        Some(0)
    } else {
        decoded_count(m[state_key(PETS_COUNT_KEY@)])
    }
}

/// The counter that the entries `m` hold; zero where the slot is empty or
/// cannot be decoded.
pub open spec fn stored_count(m: Map<Seq<u8>, Seq<u8>>) -> u64 {
    match readable_count(m) {
        Some(count) => count,
        None => 0,
    }
}

/// `ReadonlyStorage::get` on the
/// `secret_cosmwasm_storage::ReadonlyPrefixedStorage` that `new` makes for
/// `namespace`: the value under the length-prefixed namespace followed by
/// `key`, if there is one. A namespace of more than `0xFFFF` bytes is left
/// out: `new` does not take one.
#[verifier::external_body]
fn slot_get(storage: &MemoryStorage, namespace: &[u8], key: &[u8]) -> (value: Option<Vec<u8>>)
    requires
        namespace@.len() <= 0xFFFF,
    ensures
        match value {
            Some(bytes) => stored(*storage).contains_key(slot_in(namespace@, key@)) && bytes@
                == stored(*storage)[slot_in(namespace@, key@)],
            None => !stored(*storage).contains_key(slot_in(namespace@, key@)),
        },
{
    ReadonlyPrefixedStorage::new(namespace, storage).get(key)
}

/// `Storage::set` on the `secret_cosmwasm_storage::PrefixedStorage` that
/// `new` makes for `namespace`: writes `value` under the length-prefixed
/// namespace followed by `key` and touches no other entry. A namespace of
/// more than `0xFFFF` bytes is left out: `new` does not take one.
#[verifier::external_body]
fn slot_set(storage: &mut MemoryStorage, namespace: &[u8], key: &[u8], value: &[u8])
    requires
        namespace@.len() <= 0xFFFF,
    ensures
        stored(*final(storage)) == stored(*old(storage)).insert(
            slot_in(namespace@, key@),
            value@,
        ),
{
    PrefixedStorage::new(namespace, storage).set(key, value)
}

/// `Bincode2::serialize` on a `u64`, which writes the eight bytes of the
/// number, lowest first, and does not fail.
#[verifier::external_body]
fn count_to_bytes(count: u64) -> (r: Result<Vec<u8>, StdError>)
    ensures
        r is Ok,
        r matches Ok(bytes) ==> bytes@ == encoded_count(count),
{
    Bincode2::serialize(&count)
}

/// `Bincode2::deserialize` to a `u64`, which reads the first eight bytes
/// as a number, lowest byte first, and fails where there are fewer.
#[verifier::external_body]
fn count_from_bytes(bytes: &[u8]) -> (r: Result<u64, StdError>)
    ensures
        match decoded_count(bytes@) {
            Some(count) => r == Ok::<u64, StdError>(count),
            None => r is Err,
        },
{
    Bincode2::deserialize(bytes)
}

/// `Bincode2::serialize` on a configuration, as the tuple of its fields.
/// It writes into a vector without a size limit and does not fail on
/// strings and options of strings; the bytes are the encoding, and
/// decoding them gives the configuration back.
#[verifier::external_body]
fn config_to_bytes(config: &ContractConfig) -> (r: Result<Vec<u8>, StdError>)
    ensures
        r is Ok,
        r matches Ok(bytes) ==> bytes@ == encoded_config(config@) && decoded_config(bytes@)
            == Some(config@),
{
    let token = &config.accepted_token;
    Bincode2::serialize(&((&token.address, &token.hash, &token.viewing_key), &config.admin))
}

/// `Bincode2::deserialize` to a configuration, read as the tuple of its
/// fields: the configuration it reads, or an error where it reads none.
#[verifier::external_body]
fn config_from_bytes(bytes: &[u8]) -> (r: Result<ContractConfig, StdError>)
    ensures
        match decoded_config(bytes@) {
            Some(config) => r matches Ok(got) && got@ == config,
            None => r is Err,
        },
{
    let ((address, hash, viewing_key), admin): ((String, String, String), Option<String>) =
        Bincode2::deserialize(bytes)?;
    Ok(ContractConfig { accepted_token: SecretToken { address, hash, viewing_key }, admin })
}

/// Whether a result holding a configuration is the value `expected`.
pub open spec fn config_result_is(
    r: Result<ContractConfig, ContractError>,
    expected: Result<ContractConfigView, ContractError>,
) -> bool {
    match (r, expected) {
        (Ok(config), Ok(view)) => config@ == view,
        (Err(e), Err(f)) => e == f,
        _ => false,
    }
}

struct ReadonlyConfigImpl<'a>(&'a MemoryStorage);

impl<'a> ReadonlyConfigImpl<'a> {
    fn config(&self) -> (r: Result<ContractConfig, ContractError>)
        ensures
            config_result_is(r, stored_config(stored(*self.0))),
    {
        match slot_get(self.0, PREFIX_STATE.as_slice(), CONFIG_KEY.as_slice()) {
            None => Err(ContractError::NotFound),
            Some(bytes) => match config_from_bytes(bytes.as_slice()) {
                Ok(config) => Ok(config),
                Err(_) => Err(ContractError::SerializationError),
            },
        }
    }

    fn checked_pet_count(&self) -> (r: Result<u64, ContractError>)
        ensures
            match readable_count(stored(*self.0)) {
                Some(count) => r == Ok::<u64, ContractError>(count),
                None => r == Err::<u64, ContractError>(ContractError::SerializationError),
            },
    {
        match slot_get(self.0, PREFIX_STATE.as_slice(), PETS_COUNT_KEY.as_slice()) {
            None => Ok(0),
            Some(bytes) => match count_from_bytes(bytes.as_slice()) {
                Ok(count) => Ok(count),
                Err(_) => Err(ContractError::SerializationError),
            },
        }
    }

    fn pet_count(&self) -> (count: u64)
        ensures
            count == stored_count(stored(*self.0)),
    {
        match self.checked_pet_count() {
            Ok(count) => count,
            Err(_) => 0,
        }
    }
}

/// Read access to the singleton state.
pub struct ReadOnlyConfig<'a> {
    pub storage: &'a MemoryStorage,
}

impl<'a> ReadOnlyConfig<'a> {
    pub fn from_storage(storage: &'a MemoryStorage) -> (config: Self)
        ensures
            config.storage == storage,
    {
        Self { storage }
    }

    fn as_readonly(&self) -> (inner: ReadonlyConfigImpl<'_>)
        ensures
            inner.0 == self.storage,
    {
        ReadonlyConfigImpl(self.storage)
    }

    /// The stored configuration.
    pub fn state(&self) -> (r: Result<ContractConfig, ContractError>)
        ensures
            config_result_is(r, stored_config(stored(*self.storage))),
    {
        self.as_readonly().config()
    }

    /// The stored counter of all pets; zero where none is stored or the
    /// stored one cannot be decoded.
    pub fn pets_count(&self) -> (count: u64)
        ensures
            count == stored_count(stored(*self.storage)),
    {
        self.as_readonly().pet_count()
    }

    /// The stored counter of all pets; zero where none is stored, and
    /// `SerializationError` where the stored one cannot be decoded.
    pub fn checked_pets_count(&self) -> (r: Result<u64, ContractError>)
        ensures
            match readable_count(stored(*self.storage)) {
                Some(count) => r == Ok::<u64, ContractError>(count),
                None => r == Err::<u64, ContractError>(ContractError::SerializationError),
            },
    {
        self.as_readonly().checked_pet_count()
    }
}

/// Read and write access to the singleton state.
pub struct Config<'a> {
    pub storage: &'a mut MemoryStorage,
}

impl<'a> Config<'a> {
    pub fn from_storage(storage: &'a mut MemoryStorage) -> (config: Self)
        ensures
            *config.storage == *old(storage),
            *final(config.storage) == *final(storage),
    {
        Self { storage }
    }

    fn as_readonly(&self) -> (inner: ReadonlyConfigImpl<'_>)
        ensures
            *inner.0 == *old(self.storage),
    {
        ReadonlyConfigImpl(&*self.storage)
    }

    /// The stored configuration.
    pub fn config(&self) -> (r: Result<ContractConfig, ContractError>)
        ensures
            config_result_is(r, stored_config(stored(*old(self.storage)))),
    {
        self.as_readonly().config()
    }

    /// The stored counter of all pets.
    pub fn pets_count(&self) -> (count: u64)
        ensures
            count == stored_count(stored(*old(self.storage))),
    {
        self.as_readonly().pet_count()
    }

    /// Stores `state` as the configuration.
    pub fn set_config(&mut self, state: &ContractConfig) -> (r: Result<(), ContractError>)
        ensures
            *final(final(self).storage) == *final(old(self).storage),
            r is Ok,
            stored(*final(self).storage) == stored(*old(self).storage).insert(
                state_key(CONFIG_KEY@),
                encoded_config(state@),
            ),
            stored_config(stored(*final(self).storage)) == Ok::<ContractConfigView, ContractError>(
                state@,
            ),
    {
        match config_to_bytes(state) {
            Ok(bytes) => {
                slot_set(
                    self.storage,
                    PREFIX_STATE.as_slice(),
                    CONFIG_KEY.as_slice(),
                    bytes.as_slice(),
                );
                Ok(())
            },
            Err(_) => Err(ContractError::SerializationError),
        }
    }

    /// Stores `count` as the counter of all pets.
    pub fn set_pets_count(&mut self, count: u64) -> (r: Result<(), ContractError>)
        ensures
            *final(final(self).storage) == *final(old(self).storage),
            r is Ok,
            stored(*final(self).storage) == stored(*old(self).storage).insert(
                state_key(PETS_COUNT_KEY@),
                encoded_count(count),
            ),
            stored_count(stored(*final(self).storage)) == count,
    {
        proof {
            lemma_count_round_trip(count);
        }
        match count_to_bytes(count) {
            Ok(bytes) => {
                slot_set(
                    self.storage,
                    PREFIX_STATE.as_slice(),
                    PETS_COUNT_KEY.as_slice(),
                    bytes.as_slice(),
                );
                Ok(())
            },
            Err(_) => Err(ContractError::SerializationError),
        }
    }
}

} // verus!
