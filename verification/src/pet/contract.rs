//! The operations of the pet game: setting it up, creating and feeding
//! pets, and the questions that can be asked of it.

use crate::env::Env;
use crate::error::ContractError;
use crate::pet::frames::lemma_change_is_local;
use crate::pet::frames::lemma_list_writes_stay_inside;
use crate::pet::frames::lemma_same_outside_twice;
use crate::pet::frames::lemma_state_write_keeps_lists;
use crate::pet::frames::list_kept;
use crate::pet::frames::lists_kept;
use crate::pet::frames::others_kept;
use crate::pet::frames::state_kept;
use crate::pet::msg::HandleAnswer;
use crate::pet::msg::HandleMsg;
use crate::pet::msg::HandleReply;
use crate::pet::msg::InitMsg;
use crate::pet::msg::QueryAnswer;
use crate::pet::msg::QueryMsg;
use crate::pet::msg::TokenMessage;
use crate::pet::pets::append_pet;
use crate::pet::pets::find_newest;
use crate::pet::pets::get_pet;
use crate::pet::pets::get_pets;
use crate::pet::pets::is_page;
use crate::pet::pets::lemma_found_in_range;
use crate::pet::pets::lemma_scan_errors;
use crate::pet::pets::lookup;
use crate::pet::pets::page_readable;
use crate::pet::pets::Pet;
use crate::pet::pets::PetState;
use crate::pet::pets::PetView;
use crate::pet::pets::update_pet;
use crate::pet::records::encoded_record;
use crate::pet::records::list_len;
use crate::pet::records::pets_header;
use crate::pet::records::pets_len;
use crate::pet::records::pets_namespace;
use crate::pet::records::pets_of;
use crate::pet::records::record_of;
use crate::pet::state::Config;
use crate::pet::state::CONFIG_KEY;
use crate::pet::state::ContractConfig;
use crate::pet::state::ContractConfigView;
use crate::pet::state::encoded_config;
use crate::pet::state::encoded_count;
use crate::pet::state::lemma_count_round_trip;
use crate::pet::state::PETS_COUNT_KEY;
use crate::pet::state::PREFIX_PETS;
use crate::pet::state::readable_count;
use crate::pet::state::ReadOnlyConfig;
use crate::pet::state::state_key;
use crate::pet::state::stored_config;
use crate::pet::state::stored_count;
use crate::storage::append_list::created;
use crate::storage::append_list::ListHeader;
use crate::storage::append_list::pushed;
use crate::storage::append_list::replaced;
use crate::storage::memory::no_entries;
use crate::storage::memory::stored;
use secret_cosmwasm_std::Binary;
use secret_cosmwasm_std::from_binary;
use secret_cosmwasm_std::MemoryStorage;
use secret_cosmwasm_std::StdError;
use vstd::prelude::*;

verus! {

/// The page that a question about an owner's pets shows where it names
/// none.
pub const DEFAULT_PAGE: u32 = 0;

/// The size of a page where the question names none.
pub const DEFAULT_PAGE_SIZE: u32 = 30;

/// The pet id that `secret_cosmwasm_std::from_binary` reads from a payload
/// as a `u64`, or `None` where it fails.
pub uninterp spec fn decoded_pet_id(payload: Seq<u8>) -> Option<u64>;

/// `secret_cosmwasm_std::from_binary` to a `u64`, on the payload wrapped as
/// a `Binary`: the number it reads, or an error where it reads none.
#[verifier::external_body]
fn parse_pet_id(payload: Vec<u8>) -> (r: Result<u64, StdError>)
    ensures
        match decoded_pet_id(payload@) {
            Some(id) => r == Ok::<u64, StdError>(id),
            None => r is Err,
        },
{
    from_binary::<u64>(&Binary(payload))
}

/// Whether the entries hold nothing of the game: no configuration, no
/// counter, and no list of any owner.
pub open spec fn nothing_stored(m: Map<Seq<u8>, Seq<u8>>) -> bool {
    &&& stored_config(m) == Err::<ContractConfigView, ContractError>(ContractError::NotFound)
    &&& readable_count(m) == Some(0u64)
    &&& forall|owner: Seq<u8>| #[trigger] pets_header(m, owner) == ListHeader::Absent
}

/// A store without entries, on which a game can be set up.
pub fn empty_store() -> (storage: MemoryStorage)
    ensures
        stored(storage) == no_entries(),
        nothing_stored(stored(storage)),
{
    MemoryStorage::new()
}

/// The configuration with which the game starts: the administrator is the
/// one the message names, or else the caller.
pub open spec fn initial_config(env: Env, msg: InitMsg) -> ContractConfigView {
    ContractConfigView {
        accepted_token: msg.accepted_token@,
        admin: Some(
            match msg.admin {
                Some(admin) => admin@,
                None => env.sender@,
            },
        ),
    }
}

/// Whether `messages` are the two that setting up sends to the accepted
/// token: the registration as a receiver, then the viewing key.
pub open spec fn is_setup_messages(messages: Seq<TokenMessage>, env: Env, msg: InitMsg) -> bool {
    &&& messages.len() == 2
    &&& messages[0] matches TokenMessage::RegisterReceive { code_hash, token_hash, token_address }
        && code_hash@ == env.contract_code_hash@ && token_hash@ == msg.accepted_token.hash@
        && token_address@ == msg.accepted_token.address@
    &&& messages[1] matches TokenMessage::SetViewingKey { key, token_hash, token_address } && key@
        == msg.accepted_token.viewing_key@ && token_hash@ == msg.accepted_token.hash@
        && token_address@ == msg.accepted_token.address@
}

/// Sets the game up: stores the configuration and hands back the messages
/// for the accepted token. It always succeeds.
pub fn init(storage: &mut MemoryStorage, env: &Env, msg: InitMsg) -> (r: Result<
    Vec<TokenMessage>,
    ContractError,
>)
    ensures
        r is Ok,
        r matches Ok(messages) ==> is_setup_messages(messages@, *env, msg),
        stored(*final(storage)) == stored(*old(storage)).insert(
            state_key(CONFIG_KEY@),
            encoded_config(initial_config(*env, msg)),
        ),
        stored_config(stored(*final(storage))) == Ok::<ContractConfigView, ContractError>(
            initial_config(*env, msg),
        ),
        readable_count(stored(*final(storage))) == readable_count(stored(*old(storage))),
        lists_kept(stored(*old(storage)), stored(*final(storage))),
{
    proof {
        lemma_state_write_keeps_lists(
            stored(*old(storage)),
            CONFIG_KEY@,
            encoded_config(initial_config(*env, msg)),
        );
        assert(state_key(CONFIG_KEY@) != state_key(PETS_COUNT_KEY@)) by {
            assert(state_key(CONFIG_KEY@).len() != state_key(PETS_COUNT_KEY@).len());
        }
    }
    let admin = match &msg.admin {
        Some(admin) => admin.clone(),
        None => env.sender.clone(),
    };
    let contract_config = ContractConfig {
        accepted_token: msg.accepted_token.clone_token(),
        admin: Some(admin),
    };
    let mut config = Config::from_storage(storage);
    match config.set_config(&contract_config) {
        Ok(_) => {},
        Err(e) => {
            return Err(e);
        },
    }
    let receive_msg = TokenMessage::RegisterReceive {
        code_hash: env.contract_code_hash.clone(),
        token_hash: msg.accepted_token.hash.clone(),
        token_address: msg.accepted_token.address.clone(),
    };
    let view_key_msg = TokenMessage::SetViewingKey {
        key: msg.accepted_token.viewing_key.clone(),
        token_hash: msg.accepted_token.hash.clone(),
        token_address: msg.accepted_token.address.clone(),
    };
    let mut messages: Vec<TokenMessage> = Vec::new();
    messages.push(receive_msg);
    messages.push(view_key_msg);
    Ok(messages)
}

/// Whether the ids of the pets of `owner` follow the order of their
/// creation, the first pet having id 1.
pub open spec fn ids_in_order(m: Map<Seq<u8>, Seq<u8>>, owner: Seq<u8>) -> bool {
    &&& pets_header(m, owner) != ListHeader::Malformed
    &&& forall|i: int|
        0 <= i < pets_len(m, owner) ==> ((#[trigger] pets_of(m, owner)[i]) matches Some(pet)
            && pet.id == i + 1)
}

/// An owner without pets has, trivially, all ids in creation order.
pub proof fn lemma_no_pets_in_order(m: Map<Seq<u8>, Seq<u8>>, owner: Seq<u8>)
    requires
        pets_header(m, owner) != ListHeader::Malformed,
        pets_len(m, owner) == 0,
    ensures
        ids_in_order(m, owner),
{
}

/// Where the ids of an owner are in creation order, a lookup finds the pet
/// with id `id` at position `id - 1`, and finds none for an id that was
/// never given out.
pub proof fn lemma_lookup_in_order(m: Map<Seq<u8>, Seq<u8>>, owner: Seq<u8>, id: u64)
    requires
        ids_in_order(m, owner),
    ensures
        1 <= id <= pets_len(m, owner) ==> lookup(m, owner, id) == Ok::<
            (u32, PetView),
            ContractError,
        >(((id - 1) as u32, pets_of(m, owner)[id - 1]->Some_0)),
        !(1 <= id <= pets_len(m, owner)) ==> lookup(m, owner, id) == Err::<
            (u32, PetView),
            ContractError,
        >(ContractError::NotFound),
{
    lemma_find_in_order(m, owner, id, pets_len(m, owner));
}

proof fn lemma_find_in_order(m: Map<Seq<u8>, Seq<u8>>, owner: Seq<u8>, id: u64, upto: nat)
    requires
        ids_in_order(m, owner),
        upto <= pets_len(m, owner),
    ensures
        1 <= id <= upto ==> find_newest(pets_of(m, owner), id, upto) == Ok::<
            (u32, PetView),
            ContractError,
        >(((id - 1) as u32, pets_of(m, owner)[id - 1]->Some_0)),
        !(1 <= id <= upto) ==> find_newest(pets_of(m, owner), id, upto) == Err::<
            (u32, PetView),
            ContractError,
        >(ContractError::NotFound),
    decreases upto,
{
    if upto > 0 {
        lemma_find_in_order(m, owner, id, (upto - 1) as nat);
    }
}

/// The pet that a creation call makes.
pub open spec fn new_pet(
    id: u64,
    name: Seq<char>,
    now: u64,
    allowed_feed_timespan: u64,
    total_saturation_time: u64,
) -> PetView {
    PetView {
        id,
        name,
        last_fed: now,
        allowed_feed_timespan,
        total_saturation_time,
        life_state: PetState::Alive {  },
    }
}

/// Why a creation call is turned away before anything is written, if it
/// is: `InvalidInput` where the feed window would be empty,
/// `SerializationError` where the length of the owner's list is malformed
/// or the stored counter of all pets cannot be decoded, `Overflow` where
/// the list or the counter is full.
pub open spec fn creation_refusal(
    m: Map<Seq<u8>, Seq<u8>>,
    owner: Seq<u8>,
    allowed_feed_timespan: u64,
    total_saturation_time: u64,
) -> Option<ContractError> {
    if total_saturation_time <= allowed_feed_timespan {
        Some(ContractError::InvalidInput)
    } else if pets_header(m, owner) == ListHeader::Malformed || readable_count(m) is None {
        Some(ContractError::SerializationError)
    } else if pets_len(m, owner) == u32::MAX || stored_count(m) == u64::MAX {
        Some(ContractError::Overflow)
    } else {
        None
    }
}

/// The entries after `pet` was appended to the list of `owner` in `m`, the
/// list being created first where it is missing.
pub open spec fn list_after_creation(m: Map<Seq<u8>, Seq<u8>>, owner: Seq<u8>, pet: PetView) -> Map<
    Seq<u8>,
    Seq<u8>,
> {
    pushed(
        if pets_header(m, owner) == ListHeader::Absent {
            created(m, pets_namespace(owner))
        } else {
            m
        },
        pets_namespace(owner),
        pets_len(m, owner) as u32,
        encoded_record(record_of(pet)),
    )
}

/// The entries after the pet `pet` of `owner` was created in `m`: the pet
/// is appended to the owner's list and the counter of all pets is raised
/// by one.
pub open spec fn after_creation(m: Map<Seq<u8>, Seq<u8>>, owner: Seq<u8>, pet: PetView) -> Map<
    Seq<u8>,
    Seq<u8>,
> {
    list_after_creation(m, owner, pet).insert(
        state_key(PETS_COUNT_KEY@),
        encoded_count((stored_count(m) + 1) as u64),
    )
}

/// Whether a creation call that found the entries `m` ends with `r` and
/// the entries `after`.
///
/// A call that is turned away changes nothing. Every other call succeeds:
/// the new pet has the id one above the number of pets that the owner
/// had, is fed at `now` and alive, stands at the end of the owner's list
/// and is found by its id; the counter of all pets is one higher; the
/// configuration and the lists of other owners are as before.
pub open spec fn create_outcome(
    m: Map<Seq<u8>, Seq<u8>>,
    after: Map<Seq<u8>, Seq<u8>>,
    owner: Seq<u8>,
    now: u64,
    allowed_feed_timespan: u64,
    total_saturation_time: u64,
    name: Seq<char>,
    r: Result<HandleReply, ContractError>,
) -> bool {
    match creation_refusal(m, owner, allowed_feed_timespan, total_saturation_time) {
        Some(refusal) => r matches Err(e) && e == refusal && after == m,
        None => {
            let pet = new_pet(
                (pets_len(m, owner) + 1) as u64,
                name,
                now,
                allowed_feed_timespan,
                total_saturation_time,
            );
            &&& r matches Ok(
                HandleReply::Created { answer: HandleAnswer::CreatePet { name: given, id } },
            ) && given@ == name && id == pet.id
            &&& after == after_creation(m, owner, pet)
            &&& pets_header(after, owner) == ListHeader::Length((pets_len(m, owner) + 1) as u32)
            &&& pets_of(after, owner) == pets_of(m, owner).push(Some(pet))
            &&& lookup(after, owner, pet.id) == Ok::<(u32, PetView), ContractError>(
                (pets_len(m, owner) as u32, pet),
            )
            &&& readable_count(after) == Some((stored_count(m) + 1) as u64)
            &&& stored_config(after) == stored_config(m)
            &&& others_kept(m, after, owner)
        },
    }
}

/// Creates a pet of the caller, fed at the time of the call.
pub fn try_create_pet(
    storage: &mut MemoryStorage,
    env: &Env,
    allowed_feed_timespan: u64,
    total_saturation_time: u64,
    name: String,
) -> (r: Result<HandleReply, ContractError>)
    requires
        env.sender_canonical@.len() <= 0xFFFF,
    ensures
        create_outcome(
            stored(*old(storage)),
            stored(*final(storage)),
            env.sender_canonical@,
            env.block_time,
            allowed_feed_timespan,
            total_saturation_time,
            name@,
            r,
        ),
        ids_in_order(stored(*old(storage)), env.sender_canonical@) ==> ids_in_order(
            stored(*final(storage)),
            env.sender_canonical@,
        ),
{
    let ghost m = stored(*storage);
    let ghost owner_view = env.sender_canonical@;
    if total_saturation_time <= allowed_feed_timespan {
        return Err(ContractError::InvalidInput);
    }
    let owner = env.sender_canonical.as_slice();
    let owned: u64 = match list_len(storage, PREFIX_PETS.as_slice(), owner) {
        Some(Err(_)) => {
            return Err(ContractError::SerializationError);
        },
        Some(Ok(len)) => len as u64,
        None => 0,
    };
    let count = match ReadOnlyConfig::from_storage(storage).checked_pets_count() {
        Ok(count) => count,
        Err(e) => {
            return Err(e);
        },
    };
    if owned == 0xFFFF_FFFF || count == u64::MAX {
        return Err(ContractError::Overflow);
    }
    let id = owned + 1;
    let ghost pet_view = new_pet(
        id,
        name@,
        env.block_time,
        allowed_feed_timespan,
        total_saturation_time,
    );
    let pet = Pet {
        id,
        allowed_feed_timespan,
        total_saturation_time,
        name: name.clone(),
        last_fed: env.block_time,
        life_state: PetState::Alive {  },
    };
    match append_pet(storage, &pet, owner) {
        Ok(_) => {},
        Err(e) => {
            return Err(e);
        },
    }
    let ghost listed = stored(*storage);
    let mut config = Config::from_storage(storage);
    match config.set_pets_count(count + 1) {
        Ok(_) => {},
        Err(e) => {
            return Err(e);
        },
    }
    let r = Ok(HandleReply::Created { answer: HandleAnswer::CreatePet { id, name } });
    proof {
        assert(listed == list_after_creation(m, owner_view, pet_view));
        assert(stored(*storage) == after_creation(m, owner_view, pet_view));
        assert(pets_of(listed, owner_view) == pets_of(m, owner_view).push(Some(pet_view)));
        assert(pets_header(listed, owner_view) == ListHeader::Length(
            (pets_len(m, owner_view) + 1) as u32,
        ));
        lemma_creation_done(m, owner_view, pet_view, r);
    }
    r
}

/// A creation call that wrote the pet and the counter ends as a creation
/// should.
proof fn lemma_creation_done(
    m: Map<Seq<u8>, Seq<u8>>,
    owner: Seq<u8>,
    pet: PetView,
    r: Result<HandleReply, ContractError>,
)
    requires
        owner.len() <= 0xFFFF,
        creation_refusal(m, owner, pet.allowed_feed_timespan, pet.total_saturation_time) is None,
        pet == new_pet(
            (pets_len(m, owner) + 1) as u64,
            pet.name,
            pet.last_fed,
            pet.allowed_feed_timespan,
            pet.total_saturation_time,
        ),
        pets_header(list_after_creation(m, owner, pet), owner) == ListHeader::Length(
            (pets_len(m, owner) + 1) as u32,
        ),
        pets_of(list_after_creation(m, owner, pet), owner) == pets_of(m, owner).push(Some(pet)),
        lookup(list_after_creation(m, owner, pet), owner, pet.id) == Ok::<
            (u32, PetView),
            ContractError,
        >((pets_len(m, owner) as u32, pet)),
        r matches Ok(
            HandleReply::Created { answer: HandleAnswer::CreatePet { name: given, id } },
        ) && given@ == pet.name && id == pet.id,
    ensures
        create_outcome(
            m,
            after_creation(m, owner, pet),
            owner,
            pet.last_fed,
            pet.allowed_feed_timespan,
            pet.total_saturation_time,
            pet.name,
            r,
        ),
        ids_in_order(m, owner) ==> ids_in_order(after_creation(m, owner, pet), owner),
{
    lemma_creation_keeps_rest(m, owner, pet);
    if ids_in_order(m, owner) {
        lemma_creation_order(m, owner, pet);
    }
}

/// Creating a pet changes the owner's list and the counter of all pets,
/// and leaves the configuration and the lists of all other owners as they
/// were.
pub proof fn lemma_creation_keeps_rest(m: Map<Seq<u8>, Seq<u8>>, owner: Seq<u8>, pet: PetView)
    requires
        owner.len() <= 0xFFFF,
        pets_len(m, owner) < u32::MAX,
        stored_count(m) < u64::MAX,
    ensures
        list_kept(list_after_creation(m, owner, pet), after_creation(m, owner, pet), owner),
        stored_config(after_creation(m, owner, pet)) == stored_config(m),
        readable_count(after_creation(m, owner, pet)) == Some((stored_count(m) + 1) as u64),
        others_kept(m, after_creation(m, owner, pet), owner),
{
    let ns = pets_namespace(owner);
    let n = pets_len(m, owner) as u32;
    let bytes = encoded_record(record_of(pet));
    let base = if pets_header(m, owner) == ListHeader::Absent {
        created(m, ns)
    } else {
        m
    };
    let mid = list_after_creation(m, owner, pet);
    let after = after_creation(m, owner, pet);
    lemma_list_writes_stay_inside(m, ns, n, bytes);
    lemma_list_writes_stay_inside(base, ns, n, bytes);
    lemma_same_outside_twice(m, base, mid, ns);
    lemma_change_is_local(m, mid, owner);
    let count_bytes = encoded_count((stored_count(m) + 1) as u64);
    lemma_state_write_keeps_lists(mid, PETS_COUNT_KEY@, count_bytes);
    lemma_count_round_trip((stored_count(m) + 1) as u64);
    assert(list_kept(mid, after, owner));
    assert forall|other: Seq<u8>| other.len() <= 0xFFFF && other != owner implies list_kept(
        m,
        after,
        other,
    ) by {
        assert(list_kept(m, mid, other));
        assert(list_kept(mid, after, other));
    }
    assert(state_key(CONFIG_KEY@) != state_key(PETS_COUNT_KEY@)) by {
        assert(state_key(CONFIG_KEY@).len() != state_key(PETS_COUNT_KEY@).len());
    }
}

/// A pet created while the ids of its owner are in creation order, with
/// the id one above the number of the owner's pets, leaves the ids in
/// creation order.
pub proof fn lemma_creation_order(m: Map<Seq<u8>, Seq<u8>>, owner: Seq<u8>, pet: PetView)
    requires
        owner.len() <= 0xFFFF,
        pets_len(m, owner) < u32::MAX,
        stored_count(m) < u64::MAX,
        pet.id == pets_len(m, owner) + 1,
        pets_of(list_after_creation(m, owner, pet), owner) == pets_of(m, owner).push(Some(pet)),
        ids_in_order(m, owner),
    ensures
        ids_in_order(after_creation(m, owner, pet), owner),
{
    lemma_creation_keeps_rest(m, owner, pet);
    let after = after_creation(m, owner, pet);
    assert(pets_of(after, owner).len() == pets_len(m, owner) + 1);
    assert(pets_len(after, owner) == pets_len(m, owner) + 1);
    assert forall|i: int| 0 <= i < pets_len(after, owner) implies ((#[trigger] pets_of(
        after,
        owner,
    )[i]) matches Some(p) && p.id == i + 1) by {
        if i < pets_len(m, owner) {
            assert(pets_of(after, owner)[i] == pets_of(m, owner)[i]);
        }
    }
}

/// Whether a feed attempt at `now` on the pet `id` of `owner`, having
/// found the entries `m`, ends with `r` and the entries `after`.
///
/// Where the pet cannot be found the attempt fails as the lookup does and
/// changes nothing. Else the found pet takes the step of the feeding
/// state machine, and the attempt ends as the step does. Outside the feed
/// window nothing is written. A pet that is fed, and one that is found
/// lost, is written back in its new state to the position where it was
/// found. Whatever happens, the owner's list keeps its length and its
/// ids, and the lists of other owners, the configuration and the counter
/// of all pets stay as they were.
pub open spec fn feed_outcome(
    m: Map<Seq<u8>, Seq<u8>>,
    after: Map<Seq<u8>, Seq<u8>>,
    owner: Seq<u8>,
    id: u64,
    now: u64,
    r: Result<(), ContractError>,
) -> bool {
    match lookup(m, owner, id) {
        Err(e) => r == Err::<(), ContractError>(e) && after == m,
        Ok((pos, pet)) => {
            let (next, verdict) = pet.feed_attempt(now);
            &&& r == verdict
            &&& if verdict == Err::<(), ContractError>(ContractError::NotFeedingTime) {
                after == m
            } else {
                &&& after == replaced(
                    m,
                    pets_namespace(owner),
                    pos,
                    encoded_record(record_of(next)),
                )
                &&& pets_header(after, owner) == pets_header(m, owner)
                &&& pets_of(after, owner) == pets_of(m, owner).update(pos as int, Some(next))
                &&& lookup(after, owner, id) == Ok::<(u32, PetView), ContractError>((pos, next))
                &&& others_kept(m, after, owner)
                &&& state_kept(m, after)
            }
        },
    }
}

/// Tries to feed the pet `id` of `owner` at `now`.
pub fn feed_pet(storage: &mut MemoryStorage, owner: &[u8], id: u64, now: u64) -> (r: Result<
    (),
    ContractError,
>)
    requires
        owner@.len() <= 0xFFFF,
    ensures
        feed_outcome(stored(*old(storage)), stored(*final(storage)), owner@, id, now, r),
        ids_in_order(stored(*old(storage)), owner@) ==> ids_in_order(
            stored(*final(storage)),
            owner@,
        ),
{
    let ghost m = stored(*storage);
    let mut pet = match get_pet(storage, owner, id) {
        Ok(pet) => pet,
        Err(e) => {
            return Err(e);
        },
    };
    proof {
        lemma_found_in_range(pets_of(m, owner@), id, pets_len(m, owner@));
    }
    let ghost found = pet@;
    assert(lookup(m, owner@, id) is Ok && lookup(m, owner@, id)->Ok_0.1 == found);
    let verdict = pet.attempt_feed(now);
    let ghost next = pet@;
    assert((next, verdict) == found.feed_attempt(now));
    assert(next.id == id);
    match verdict {
        Err(ContractError::NotFeedingTime) => {
            return verdict;
        },
        _ => {},
    }
    match update_pet(storage, owner, id, pet) {
        Ok(_) => {
            proof {
                lemma_feed_written(m, owner@, id, next);
            }
            verdict
        },
        Err(e) => Err(e),
    }
}

/// Writing a pet back over the one that a lookup found, with the id
/// unchanged, keeps the ids of the list and touches nothing else.
proof fn lemma_feed_written(m: Map<Seq<u8>, Seq<u8>>, owner: Seq<u8>, id: u64, next: PetView)
    requires
        owner.len() <= 0xFFFF,
        lookup(m, owner, id) is Ok,
        next.id == id,
        pets_of(
            replaced(
                m,
                pets_namespace(owner),
                lookup(m, owner, id)->Ok_0.0,
                encoded_record(record_of(next)),
            ),
            owner,
        ) == pets_of(m, owner).update(lookup(m, owner, id)->Ok_0.0 as int, Some(next)),
        pets_header(
            replaced(
                m,
                pets_namespace(owner),
                lookup(m, owner, id)->Ok_0.0,
                encoded_record(record_of(next)),
            ),
            owner,
        ) == pets_header(m, owner),
    ensures
        ({
            let pos = lookup(m, owner, id)->Ok_0.0;
            let after = replaced(m, pets_namespace(owner), pos, encoded_record(record_of(next)));
            &&& others_kept(m, after, owner)
            &&& state_kept(m, after)
            &&& ids_in_order(m, owner) ==> ids_in_order(after, owner)
        }),
{
    let pos = lookup(m, owner, id)->Ok_0.0;
    let ns = pets_namespace(owner);
    let bytes = encoded_record(record_of(next));
    let after = replaced(m, ns, pos, bytes);
    lemma_found_in_range(pets_of(m, owner), id, pets_len(m, owner));
    lemma_list_writes_stay_inside(m, ns, pos, bytes);
    lemma_change_is_local(m, after, owner);
    if ids_in_order(m, owner) {
        assert(pets_of(m, owner)[pos as int] == Some(lookup(m, owner, id)->Ok_0.1));
        assert forall|i: int| 0 <= i < pets_len(after, owner) implies ((#[trigger] pets_of(
            after,
            owner,
        )[i]) matches Some(p) && p.id == i + 1) by {
            if i != pos {
                assert(pets_of(after, owner)[i] == pets_of(m, owner)[i]);
            }
        }
    }
}

/// The pet id that the payload of a transfer names, if it names one.
pub open spec fn payload_id(msg: Option<Vec<u8>>) -> Option<u64> {
    match msg {
        Some(payload) => decoded_pet_id(payload@),
        None => None,
    }
}

/// The owner that a transfer names, where the host could resolve the
/// address.
pub open spec fn resolved_owner(from: Option<Vec<u8>>) -> Option<Seq<u8>> {
    match from {
        Some(owner) => Some(owner@),
        None => None,
    }
}

/// Whether a transfer of food that found the entries `m` ends with `r`
/// and the entries `after`.
///
/// It fails, changing nothing, as reading the configuration fails; else
/// with `InvalidInput` where the payload is missing or names no pet id,
/// or where the owner's address could not be resolved; else with
/// `Unauthorized` where the caller is not the accepted token. Else it is a
/// feed attempt at `now` on the named pet of `from`, and on success
/// reports the pet, the time and the amount.
pub open spec fn receive_outcome(
    m: Map<Seq<u8>, Seq<u8>>,
    after: Map<Seq<u8>, Seq<u8>>,
    sender: Seq<char>,
    now: u64,
    from: Option<Seq<u8>>,
    amount: u128,
    msg: Option<Vec<u8>>,
    r: Result<HandleReply, ContractError>,
) -> bool {
    match stored_config(m) {
        Err(e) => r matches Err(f) && f == e && after == m,
        Ok(config) => match (payload_id(msg), from) {
            (Some(id), Some(owner)) => if sender != config.accepted_token.address {
                r matches Err(e) && e == ContractError::Unauthorized && after == m
            } else {
                match r {
                    Ok(reply) => reply == (HandleReply::Fed { id, time: now, food_amount: amount })
                        && feed_outcome(m, after, owner, id, now, Ok(())),
                    Err(e) => feed_outcome(m, after, owner, id, now, Err(e)),
                }
            },
            _ => r matches Err(e) && e == ContractError::InvalidInput && after == m,
        },
    }
}

/// Handles a transfer of food from the accepted token: feeds the pet that
/// the payload names, of the owner `from`, given in canonical form, or as
/// `None` where the host could not resolve the owner's address.
pub fn try_feed(
    storage: &mut MemoryStorage,
    env: &Env,
    from: Option<Vec<u8>>,
    amount: u128,
    msg: Option<Vec<u8>>,
) -> (r: Result<HandleReply, ContractError>)
    requires
        from matches Some(owner) ==> owner@.len() <= 0xFFFF,
    ensures
        receive_outcome(
            stored(*old(storage)),
            stored(*final(storage)),
            env.sender@,
            env.block_time,
            resolved_owner(from),
            amount,
            msg,
            r,
        ),
        from matches Some(owner) ==> (ids_in_order(stored(*old(storage)), owner@) ==> ids_in_order(
            stored(*final(storage)),
            owner@,
        )),
{
    let config = match ReadOnlyConfig::from_storage(storage).state() {
        Ok(config) => config,
        Err(e) => {
            return Err(e);
        },
    };
    let id = match msg {
        Some(payload) => match parse_pet_id(payload) {
            Ok(id) => id,
            Err(_) => {
                return Err(ContractError::InvalidInput);
            },
        },
        None => {
            return Err(ContractError::InvalidInput);
        },
    };
    let canonical_from = match from {
        Some(owner) => owner,
        None => {
            return Err(ContractError::InvalidInput);
        },
    };
    let current_timestamp = env.block_time;
    if env.sender != config.accepted_token.address {
        return Err(ContractError::Unauthorized);
    }
    match feed_pet(storage, canonical_from.as_slice(), id, current_timestamp) {
        Ok(_) => Ok(HandleReply::Fed { id, time: current_timestamp, food_amount: amount }),
        Err(e) => Err(e),
    }
}

/// Whether a handled message that found the entries `m` ends with `r`
/// and the entries `after`: a transfer of food ends as
/// [`receive_outcome`] says, a creation as [`create_outcome`] says.
pub open spec fn handle_outcome(
    m: Map<Seq<u8>, Seq<u8>>,
    after: Map<Seq<u8>, Seq<u8>>,
    env: Env,
    msg: HandleMsg,
    r: Result<HandleReply, ContractError>,
) -> bool {
    match msg {
        HandleMsg::Receive { sender, from, amount, msg } => receive_outcome(
            m,
            after,
            env.sender@,
            env.block_time,
            resolved_owner(from),
            amount,
            msg,
            r,
        ),
        HandleMsg::CreatePet {
            name,
            allowed_feed_timespan,
            total_saturation_time,
        } => create_outcome(
            m,
            after,
            env.sender_canonical@,
            env.block_time,
            allowed_feed_timespan,
            total_saturation_time,
            name@,
            r,
        ),
    }
}

/// The owner whose pets a message is about: the caller who creates a pet,
/// or the one whose pet is fed; no bytes where the host could not resolve
/// that one's address.
pub open spec fn handled_owner(env: Env, msg: HandleMsg) -> Seq<u8> {
    match msg {
        HandleMsg::Receive { from: Some(owner), .. } => owner@,
        HandleMsg::Receive { from: None, .. } => Seq::empty(),
        HandleMsg::CreatePet { .. } => env.sender_canonical@,
    }
}

/// Handles a message that changes the game.
pub fn handle(storage: &mut MemoryStorage, env: &Env, msg: HandleMsg) -> (r: Result<
    HandleReply,
    ContractError,
>)
    requires
        handled_owner(*env, msg).len() <= 0xFFFF,
    ensures
        handle_outcome(stored(*old(storage)), stored(*final(storage)), *env, msg, r),
        ids_in_order(stored(*old(storage)), handled_owner(*env, msg)) ==> ids_in_order(
            stored(*final(storage)),
            handled_owner(*env, msg),
        ),
{
    match msg {
        HandleMsg::Receive { sender: _, from, amount, msg } => try_feed(
            storage,
            env,
            from,
            amount,
            msg,
        ),
        HandleMsg::CreatePet {
            allowed_feed_timespan,
            name,
            total_saturation_time,
        } => try_create_pet(storage, env, allowed_feed_timespan, total_saturation_time, name),
    }
}

/// A feed attempt on a stored pet that is not recorded as dead succeeds if
/// and only if the time lies inside the pet's feed window; it then stores
/// the pet as fed at that time.
pub proof fn lemma_stored_pet_is_fed_in_window(
    m: Map<Seq<u8>, Seq<u8>>,
    after: Map<Seq<u8>, Seq<u8>>,
    owner: Seq<u8>,
    id: u64,
    now: u64,
    r: Result<(), ContractError>,
)
    requires
        feed_outcome(m, after, owner, id, now, r),
        lookup(m, owner, id) matches Ok((_, pet)) && pet.life_state == (PetState::Alive {  }),
    ensures
        r is Ok <==> lookup(m, owner, id)->Ok_0.1.can_be_fed(now),
        r is Ok ==> lookup(after, owner, id) == Ok::<(u32, PetView), ContractError>(
            (lookup(m, owner, id)->Ok_0.0, lookup(m, owner, id)->Ok_0.1.fed(now)),
        ),
{
}

/// Death is final in the store too: once a feed attempt on a pet has
/// ended with `AlreadyDead`, the pet is stored as dead, and every later
/// attempt on it ends with `AlreadyDead` again and leaves it as it is,
/// whatever the clock says then.
pub proof fn lemma_dead_stays_dead(
    m: Map<Seq<u8>, Seq<u8>>,
    after: Map<Seq<u8>, Seq<u8>>,
    last: Map<Seq<u8>, Seq<u8>>,
    owner: Seq<u8>,
    id: u64,
    now: u64,
    later: u64,
    r: Result<(), ContractError>,
)
    requires
        feed_outcome(m, after, owner, id, now, Err(ContractError::AlreadyDead)),
        feed_outcome(after, last, owner, id, later, r),
    ensures
        lookup(after, owner, id) matches Ok((_, pet)) && pet.life_state == (PetState::Dead {  }),
        r == Err::<(), ContractError>(ContractError::AlreadyDead),
        lookup(last, owner, id) == lookup(after, owner, id),
{
    lemma_scan_errors(pets_of(m, owner), id, pets_len(m, owner));
}

/// Whether `r` answers the question for the last feeding time of the pet
/// `id` of `owner`: the pet's `last_fed`, or the error of the lookup.
pub open spec fn last_fed_answer(
    m: Map<Seq<u8>, Seq<u8>>,
    owner: Seq<u8>,
    id: u64,
    r: Result<QueryAnswer, ContractError>,
) -> bool {
    match lookup(m, owner, id) {
        Ok((_, pet)) => r matches Ok(QueryAnswer::LastFedResponse { timestamp }) && timestamp
            == pet.last_fed,
        Err(e) => r matches Err(f) && f == e,
    }
}

/// Whether `r` answers the question for the pet `id` of `owner`: its id,
/// name and the two time spans, or the error of the lookup.
pub open spec fn pet_info_answer(
    m: Map<Seq<u8>, Seq<u8>>,
    owner: Seq<u8>,
    id: u64,
    r: Result<QueryAnswer, ContractError>,
) -> bool {
    match lookup(m, owner, id) {
        Ok((_, pet)) => r matches Ok(
            QueryAnswer::PetInfoResponse {
                id: got,
                name,
                allowed_feed_timespan,
                total_saturation_time,
            },
        ) && got == pet.id && name@ == pet.name && allowed_feed_timespan
            == pet.allowed_feed_timespan && total_saturation_time == pet.total_saturation_time,
        Err(e) => r matches Err(f) && f == e,
    }
}

/// Whether `r` answers the question for a page of the pets of `owner`:
/// the page, newest pet first, and the number of all the owner's pets;
/// `SerializationError` where the stored length is malformed or a pet of
/// the page cannot be read.
pub open spec fn pets_answer(
    m: Map<Seq<u8>, Seq<u8>>,
    owner: Seq<u8>,
    page: u32,
    page_size: u32,
    r: Result<QueryAnswer, ContractError>,
) -> bool {
    match r {
        Ok(answer) => {
            &&& answer matches QueryAnswer::Pets { size, pets }
            &&& pets_header(m, owner) != ListHeader::Malformed
            &&& answer->Pets_size == pets_len(m, owner)
            &&& is_page(m, owner, page, page_size, answer->Pets_pets@)
        },
        Err(e) => {
            &&& e == ContractError::SerializationError
            &&& pets_header(m, owner) == ListHeader::Malformed || !page_readable(
                m,
                owner,
                page,
                page_size,
            )
        },
    }
}

/// Whether `r` answers the question for the accepted token: its address
/// and hash, or the error of reading the configuration.
pub open spec fn accepted_token_answer(
    m: Map<Seq<u8>, Seq<u8>>,
    r: Result<QueryAnswer, ContractError>,
) -> bool {
    match stored_config(m) {
        Ok(config) => r matches Ok(QueryAnswer::AcceptedToken { address, hash }) && address@
            == config.accepted_token.address && hash@ == config.accepted_token.hash,
        Err(e) => r matches Err(f) && f == e,
    }
}

/// Whether `r` answers the question `msg`. A question for pets that names
/// no page asks for page 0, one that names no page size for pages of 30.
pub open spec fn query_answer(
    m: Map<Seq<u8>, Seq<u8>>,
    msg: QueryMsg,
    r: Result<QueryAnswer, ContractError>,
) -> bool {
    match msg {
        QueryMsg::LastFed { id, owner } => last_fed_answer(m, owner@, id, r),
        QueryMsg::Pet { id, owner } => pet_info_answer(m, owner@, id, r),
        QueryMsg::AcceptedToken {  } => accepted_token_answer(m, r),
        QueryMsg::Pets { owner, page, page_size } => pets_answer(
            m,
            owner@,
            match page {
                Some(page) => page,
                None => DEFAULT_PAGE,
            },
            match page_size {
                Some(page_size) => page_size,
                None => DEFAULT_PAGE_SIZE,
            },
            r,
        ),
    }
}

/// The owner that a question names, if it names one.
pub open spec fn asked_owner(msg: QueryMsg) -> Seq<u8> {
    match msg {
        QueryMsg::LastFed { owner, .. } => owner@,
        QueryMsg::Pet { owner, .. } => owner@,
        QueryMsg::Pets { owner, .. } => owner@,
        QueryMsg::AcceptedToken {  } => Seq::empty(),
    }
}

/// Answers a question.
pub fn query(storage: &MemoryStorage, msg: QueryMsg) -> (r: Result<QueryAnswer, ContractError>)
    requires
        asked_owner(msg).len() <= 0xFFFF,
    ensures
        query_answer(stored(*storage), msg, r),
{
    match msg {
        QueryMsg::LastFed { id, owner } => query_last_fed(storage, id, owner),
        QueryMsg::Pet { id, owner } => query_pet_info(storage, id, owner),
        QueryMsg::AcceptedToken {  } => query_accepted_token(storage),
        QueryMsg::Pets { owner, page_size, page } => query_pets(
            storage,
            owner,
            match page {
                Some(page) => page,
                None => DEFAULT_PAGE,
            },
            match page_size {
                Some(page_size) => page_size,
                None => DEFAULT_PAGE_SIZE,
            },
        ),
    }
}

fn query_last_fed(storage: &MemoryStorage, id: u64, owner: Vec<u8>) -> (r: Result<
    QueryAnswer,
    ContractError,
>)
    requires
        owner@.len() <= 0xFFFF,
    ensures
        last_fed_answer(stored(*storage), owner@, id, r),
{
    match get_pet(storage, owner.as_slice(), id) {
        Ok(pet) => Ok(QueryAnswer::LastFedResponse { timestamp: pet.last_fed }),
        Err(e) => Err(e),
    }
}

fn query_pet_info(storage: &MemoryStorage, id: u64, owner: Vec<u8>) -> (r: Result<
    QueryAnswer,
    ContractError,
>)
    requires
        owner@.len() <= 0xFFFF,
    ensures
        pet_info_answer(stored(*storage), owner@, id, r),
{
    match get_pet(storage, owner.as_slice(), id) {
        Ok(pet) => Ok(
            QueryAnswer::PetInfoResponse {
                id: pet.id,
                name: pet.name,
                allowed_feed_timespan: pet.allowed_feed_timespan,
                total_saturation_time: pet.total_saturation_time,
            },
        ),
        Err(e) => Err(e),
    }
}

fn query_pets(storage: &MemoryStorage, owner: Vec<u8>, page: u32, page_size: u32) -> (r: Result<
    QueryAnswer,
    ContractError,
>)
    requires
        owner@.len() <= 0xFFFF,
    ensures
        pets_answer(stored(*storage), owner@, page, page_size, r),
{
    match get_pets(storage, owner.as_slice(), page, page_size) {
        Ok((pets, len)) => Ok(QueryAnswer::Pets { pets, size: len }),
        Err(e) => Err(e),
    }
}

fn query_accepted_token(storage: &MemoryStorage) -> (r: Result<QueryAnswer, ContractError>)
    ensures
        accepted_token_answer(stored(*storage), r),
{
    let store = ReadOnlyConfig::from_storage(storage);
    match store.state() {
        Ok(config) => Ok(
            QueryAnswer::AcceptedToken {
                address: config.accepted_token.address,
                hash: config.accepted_token.hash,
            },
        ),
        Err(e) => Err(e),
    }
}

} // verus!
