//! How pets lie in the store: each owner has an append-only list under a
//! namespace of their own, and each pet is written there as a record of
//! plain values.

use crate::pet::pets::Pet;
use crate::pet::pets::PetState;
use crate::pet::pets::PetView;
use crate::pet::state::PREFIX_PETS;
use crate::storage::append_list::created;
use crate::storage::append_list::list_header;
use crate::storage::append_list::ListHeader;
use crate::storage::append_list::pushed;
use crate::storage::append_list::replaced;
use crate::storage::append_list::slot_key;
use crate::storage::keys::length_prefixed;
use crate::storage::memory::stored;
use secret_cosmwasm_std::MemoryStorage;
use secret_cosmwasm_std::StdError;
use secret_cosmwasm_storage::PrefixedStorage;
use secret_cosmwasm_storage::ReadonlyPrefixedStorage;
use secret_toolkit::storage::AppendStore;
use secret_toolkit::storage::AppendStoreMut;
use vstd::prelude::*;

verus! {

/// A pet as it is handed to the store: its fields in order, the life state
/// as the number of its variant.
pub type PetRecord = (u64, String, u64, u64, u64, u32);

/// The mathematical value of a [`PetRecord`].
pub type PetRecordView = (u64, Seq<char>, u64, u64, u64, u32);

/// The bytes `secret_toolkit::serialization::Bincode2::serialize` gives
/// for a record; with them a list of `secret_toolkit::storage` writes its
/// items.
pub uninterp spec fn encoded_record(record: PetRecordView) -> Seq<u8>;

/// What `secret_toolkit::serialization::Bincode2::deserialize` reads from
/// `bytes` as a record, or `None` where it fails; with it a list of
/// `secret_toolkit::storage` reads its items.
pub uninterp spec fn decoded_record(bytes: Seq<u8>) -> Option<PetRecordView>;

/// The record that stands for a pet.
pub open spec fn record_of(pet: PetView) -> PetRecordView {
    (
        pet.id,
        pet.name,
        pet.last_fed,
        pet.allowed_feed_timespan,
        pet.total_saturation_time,
        match pet.life_state {
            PetState::Alive {  } => 0u32,
            PetState::Dead {  } => 1u32,
        },
    )
}

/// The pet for which a record stands; `None` where the last field is the
/// number of no life state.
pub open spec fn pet_of(record: PetRecordView) -> Option<PetView> {
    if record.5 > 1 {
        None
    } else {
        Some(
            PetView {
                id: record.0,
                name: record.1,
                last_fed: record.2,
                allowed_feed_timespan: record.3,
                total_saturation_time: record.4,
                life_state: if record.5 == 0 {
                    PetState::Alive {  }
                } else {
                    PetState::Dead {  }
                },
            },
        )
    }
}

/// The namespace of the list of `owner` inside the namespace `outer`.
pub open spec fn list_namespace(outer: Seq<u8>, owner: Seq<u8>) -> Seq<u8> {
    length_prefixed(outer) + length_prefixed(owner)
}

/// The namespace of the pet list of `owner`.
pub open spec fn pets_namespace(owner: Seq<u8>) -> Seq<u8> {
    list_namespace(PREFIX_PETS@, owner)
}

/// The record that the entries hold at position `pos` of the list under
/// `namespace`; `None` where the slot is empty or cannot be decoded.
pub open spec fn record_at(m: Map<Seq<u8>, Seq<u8>>, namespace: Seq<u8>, pos: u32) -> Option<
    PetRecordView,
> {
    if m.contains_key(slot_key(namespace, pos)) {
        decoded_record(m[slot_key(namespace, pos)])
    } else {
        None
    }
}

/// The header of the pet list of `owner` in the entries `m`.
pub open spec fn pets_header(m: Map<Seq<u8>, Seq<u8>>, owner: Seq<u8>) -> ListHeader {
    list_header(m, pets_namespace(owner))
}

/// The number of pets of `owner`; zero where the owner has no list.
pub open spec fn pets_len(m: Map<Seq<u8>, Seq<u8>>, owner: Seq<u8>) -> nat {
    match pets_header(m, owner) {
        ListHeader::Length(n) => n as nat,
        _ => 0,
    }
}

/// The record that the entries hold at position `pos` of the list of
/// `owner`; `None` where the slot is empty or cannot be decoded.
pub open spec fn stored_record(m: Map<Seq<u8>, Seq<u8>>, owner: Seq<u8>, pos: u32) -> Option<
    PetRecordView,
> {
    record_at(m, pets_namespace(owner), pos)
}

/// The pet that the entries hold at position `pos` of the list of `owner`;
/// `None` where no valid pet can be read there.
pub open spec fn stored_pet(m: Map<Seq<u8>, Seq<u8>>, owner: Seq<u8>, pos: u32) -> Option<
    PetView,
> {
    match stored_record(m, owner, pos) {
        Some(record) => pet_of(record),
        None => None,
    }
}

/// The pets of `owner` in insertion order, each `None` where it cannot be
/// read.
pub open spec fn pets_of(m: Map<Seq<u8>, Seq<u8>>, owner: Seq<u8>) -> Seq<Option<PetView>> {
    Seq::new(pets_len(m, owner), |i: int| stored_pet(m, owner, i as u32))
}

/// `AppendStore::attach` on the `ReadonlyPrefixedStorage` that `multilevel`
/// makes for the namespaces `outer` and `owner`, then `len`. `attach` gives
/// `None` where no length is stored and an error where the stored length
/// is not four bytes long; `len` is the stored length. Namespaces of more
/// than `0xFFFF` bytes are left out: `multilevel` does not take them.
#[verifier::external_body]
pub(crate) fn list_len(
    storage: &MemoryStorage,
    outer: &[u8],
    owner: &[u8],
) -> (r: Option<Result<u32, StdError>>)
    requires
        outer@.len() <= 0xFFFF,
        owner@.len() <= 0xFFFF,
    ensures
        match list_header(stored(*storage), list_namespace(outer@, owner@)) {
            ListHeader::Absent => r is None,
            ListHeader::Malformed => r matches Some(Err(_)),
            ListHeader::Length(n) => r == Some(Ok::<u32, StdError>(n)),
        },
{
    let space = ReadonlyPrefixedStorage::multilevel(&[outer, owner], storage);
    match AppendStore::<PetRecord, _>::attach(&space) {
        Some(Ok(list)) => Some(Ok(list.len())),
        Some(Err(e)) => Some(Err(e)),
        None => None,
    }
}

/// `AppendStore::attach` on the `ReadonlyPrefixedStorage` that `multilevel`
/// makes for the namespaces `outer` and `owner`, then `get_at`, which
/// fails where `pos` is not below the length, where the slot is empty and
/// where its bytes cannot be decoded, and else gives the decoded record.
#[verifier::external_body]
pub(crate) fn list_get(
    storage: &MemoryStorage,
    outer: &[u8],
    owner: &[u8],
    pos: u32,
) -> (r: Option<Result<PetRecord, StdError>>)
    requires
        outer@.len() <= 0xFFFF,
        owner@.len() <= 0xFFFF,
    ensures
        match list_header(stored(*storage), list_namespace(outer@, owner@)) {
            ListHeader::Absent => r is None,
            ListHeader::Malformed => r matches Some(Err(_)),
            ListHeader::Length(n) => if pos < n {
                match record_at(stored(*storage), list_namespace(outer@, owner@), pos) {
                    Some(record) => r matches Some(Ok(got)) && got@ == record,
                    None => r matches Some(Err(_)),
                }
            } else {
                r matches Some(Err(_))
            },
        },
{
    let space = ReadonlyPrefixedStorage::multilevel(&[outer, owner], storage);
    match AppendStore::<PetRecord, _>::attach(&space) {
        Some(Ok(list)) => Some(list.get_at(pos)),
        Some(Err(e)) => Some(Err(e)),
        None => None,
    }
}

/// `AppendStoreMut::attach_or_create` on the `PrefixedStorage` that
/// `multilevel` makes for the namespaces `outer` and `owner`, then `push`.
/// The first stores a length of zero where none is stored, and fails,
/// writing nothing, on a malformed length. The second serializes the
/// record, which does not fail on a record of numbers and a string,
/// writes it at the position equal to the length, and stores the length
/// plus one. A record that was written decodes to itself. A list of
/// `u32::MAX` items is left out: `push` cannot count further.
#[verifier::external_body]
pub(crate) fn list_push(
    storage: &mut MemoryStorage,
    outer: &[u8],
    owner: &[u8],
    record: &PetRecord,
) -> (r: Result<(), StdError>)
    requires
        outer@.len() <= 0xFFFF,
        owner@.len() <= 0xFFFF,
        list_header(stored(*old(storage)), list_namespace(outer@, owner@)) != ListHeader::Length(
            u32::MAX,
        ),
    ensures
        match list_header(stored(*old(storage)), list_namespace(outer@, owner@)) {
            ListHeader::Absent => r is Ok && stored(*final(storage)) == pushed(
                created(stored(*old(storage)), list_namespace(outer@, owner@)),
                list_namespace(outer@, owner@),
                0,
                encoded_record(record@),
            ),
            ListHeader::Malformed => r is Err && stored(*final(storage)) == stored(*old(storage)),
            ListHeader::Length(n) => r is Ok && stored(*final(storage)) == pushed(
                stored(*old(storage)),
                list_namespace(outer@, owner@),
                n,
                encoded_record(record@),
            ),
        },
        r is Ok ==> decoded_record(encoded_record(record@)) == Some(record@),
{
    let mut space = PrefixedStorage::multilevel(&[outer, owner], storage);
    let mut list = AppendStoreMut::attach_or_create(&mut space)?;
    list.push(record)
}

/// `AppendStoreMut::attach` on the `PrefixedStorage` that `multilevel`
/// makes for the namespaces `outer` and `owner`, then `set_at`, which
/// fails, writing nothing, where `pos` is not below the length, and else
/// serializes the record, which does not fail on a record of numbers and
/// a string, and writes it at `pos`. A record that was written decodes to
/// itself.
#[verifier::external_body]
pub(crate) fn list_set(
    storage: &mut MemoryStorage,
    outer: &[u8],
    owner: &[u8],
    pos: u32,
    record: &PetRecord,
) -> (r: Option<Result<(), StdError>>)
    requires
        outer@.len() <= 0xFFFF,
        owner@.len() <= 0xFFFF,
    ensures
        match list_header(stored(*old(storage)), list_namespace(outer@, owner@)) {
            ListHeader::Absent => r is None,
            ListHeader::Malformed => r matches Some(Err(_)),
            ListHeader::Length(n) => if pos < n {
                r matches Some(Ok(_))
            } else {
                r matches Some(Err(_))
            },
        },
        match r {
            Some(Ok(_)) => stored(*final(storage)) == replaced(
                stored(*old(storage)),
                list_namespace(outer@, owner@),
                pos,
                encoded_record(record@),
            ) && decoded_record(encoded_record(record@)) == Some(record@),
            _ => stored(*final(storage)) == stored(*old(storage)),
        },
{
    let mut space = PrefixedStorage::multilevel(&[outer, owner], storage);
    match AppendStoreMut::attach(&mut space) {
        Some(Ok(mut list)) => Some(list.set_at(pos, record)),
        Some(Err(e)) => Some(Err(e)),
        None => None,
    }
}

/// The record that stands for `pet`.
pub(crate) fn to_record(pet: &Pet) -> (record: PetRecord)
    ensures
        record@ == record_of(pet@),
        pet_of(record@) == Some(pet@),
{
    let tag: u32 = match pet.life_state {
        PetState::Alive {  } => 0,
        PetState::Dead {  } => 1,
    };
    (
        pet.id,
        pet.name.clone(),
        pet.last_fed,
        pet.allowed_feed_timespan,
        pet.total_saturation_time,
        tag,
    )
}

/// The pet for which `record` stands, if it stands for one.
pub(crate) fn from_record(record: PetRecord) -> (pet: Option<Pet>)
    ensures
        match pet {
            Some(pet) => pet_of(record@) == Some(pet@),
            None => pet_of(record@) is None,
        },
{
    let (id, name, last_fed, allowed_feed_timespan, total_saturation_time, tag) = record;
    if tag > 1 {
        None
    } else {
        let life_state = if tag == 0 {
            PetState::Alive {  }
        } else {
            PetState::Dead {  }
        };
        Some(Pet { id, name, last_fed, allowed_feed_timespan, total_saturation_time, life_state })
    }
}

} // verus!
