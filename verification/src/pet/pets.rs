//! Pet records, the feeding state machine, and the registry of the pets
//! of each owner.

use crate::error::ContractError;
use crate::pet::records::decoded_record;
use crate::pet::records::encoded_record;
use crate::pet::records::from_record;
use crate::pet::records::list_get;
use crate::pet::records::list_len;
use crate::pet::records::list_push;
use crate::pet::records::list_set;
use crate::pet::records::pets_header;
use crate::pet::records::pets_len;
use crate::pet::records::pets_namespace;
use crate::pet::records::pets_of;
use crate::pet::records::record_of;
use crate::pet::records::stored_pet;
use crate::pet::records::to_record;
use crate::pet::state::PREFIX_PETS;
use crate::storage::append_list::created;
use crate::storage::append_list::lemma_created;
use crate::storage::append_list::lemma_pushed;
use crate::storage::append_list::lemma_replaced;
use crate::storage::append_list::ListHeader;
use crate::storage::append_list::pushed;
use crate::storage::append_list::replaced;
use crate::storage::memory::stored;
use secret_cosmwasm_std::MemoryStorage;
use vstd::prelude::*;

verus! {

/// Whether a pet is still alive. `Dead` is terminal.
#[derive(Clone, Copy, Debug, PartialEq, Eq, Structural)]
pub enum PetState {
    Alive {},
    Dead {},
}

/// One pet of one owner.
#[derive(Clone, Debug, PartialEq)]
pub struct Pet {
    pub id: u64,
    pub name: String,
    pub last_fed: u64,
    pub allowed_feed_timespan: u64,
    pub total_saturation_time: u64,
    pub life_state: PetState,
}

/// The mathematical value of a [`Pet`].
pub struct PetView {
    pub id: u64,
    pub name: Seq<char>,
    pub last_fed: u64,
    pub allowed_feed_timespan: u64,
    pub total_saturation_time: u64,
    pub life_state: PetState,
}

impl PetView {
    /// The pet has gone unfed for longer than its saturation time.
    pub open spec fn is_dead(self, now: u64) -> bool {
        now > self.last_fed + self.total_saturation_time
    }

    /// `now` lies strictly inside the feed window.
    pub open spec fn can_be_fed(self, now: u64) -> bool {
        self.last_fed + self.allowed_feed_timespan < now < self.last_fed
            + self.total_saturation_time
    }

    /// The same pet, fed at `now`.
    pub open spec fn fed(self, now: u64) -> PetView {
        PetView { last_fed: now, ..self }
    }

    /// The same pet, recorded as dead.
    pub open spec fn marked_dead(self) -> PetView {
        PetView { life_state: PetState::Dead {  }, ..self }
    }

    /// The pet was recorded as dead, or is seen to be dead at `now`.
    pub open spec fn is_lost(self, now: u64) -> bool {
        self.life_state == (PetState::Dead {  }) || self.is_dead(now)
    }

    /// What a feed attempt at `now` makes of the pet, and how it ends. A
    /// pet that is lost is recorded as dead and the attempt fails with
    /// `AlreadyDead`; this is decided before the feed window is looked at.
    /// Outside the window the pet stays as it is and the attempt fails
    /// with `NotFeedingTime`. Inside it the pet is fed.
    pub open spec fn feed_attempt(self, now: u64) -> (PetView, Result<(), ContractError>) {
        if self.is_lost(now) {
            (self.marked_dead(), Err(ContractError::AlreadyDead))
        } else if !self.can_be_fed(now) {
            (self, Err(ContractError::NotFeedingTime))
        } else {
            (self.fed(now), Ok(()))
        }
    }
}

impl View for Pet {
    type V = PetView;

    open spec fn view(&self) -> PetView {
        PetView {
            id: self.id,
            name: self.name@,
            last_fed: self.last_fed,
            allowed_feed_timespan: self.allowed_feed_timespan,
            total_saturation_time: self.total_saturation_time,
            life_state: self.life_state,
        }
    }
}

impl Pet {
    /// Whether the pet has starved by `current_timestamp`.
    pub fn is_dead(&self, current_timestamp: u64) -> (dead: bool)
        ensures
            dead == self@.is_dead(current_timestamp),
    {
        match self.last_fed.checked_add(self.total_saturation_time) {
            Some(deadline) => current_timestamp > deadline,
            None => false,
        }
    }

    /// Whether `current_timestamp` lies inside the feed window.
    pub fn can_be_fed(&self, current_timestamp: u64) -> (feedable: bool)
        ensures
            feedable == self@.can_be_fed(current_timestamp),
    {
        let after_wait = match self.last_fed.checked_add(self.allowed_feed_timespan) {
            Some(feeding_timestamp) => current_timestamp > feeding_timestamp,
            None => false,
        };
        let before_death = match self.last_fed.checked_add(self.total_saturation_time) {
            Some(deadline) => current_timestamp < deadline,
            None => true,
        };
        after_wait && before_death
    }

    /// Feeds a living pet inside its feed window.
    pub fn feed(&mut self, current_timestamp: u64)
        requires
            !old(self)@.is_lost(current_timestamp),
            old(self)@.can_be_fed(current_timestamp),
        ensures
            final(self)@ == old(self)@.fed(current_timestamp),
    {
        self.last_fed = current_timestamp;
    }

    /// Tries to feed the pet at `current_timestamp`: the step of the
    /// feeding state machine.
    pub fn attempt_feed(&mut self, current_timestamp: u64) -> (r: Result<(), ContractError>)
        ensures
            (final(self)@, r) == old(self)@.feed_attempt(current_timestamp),
            r is Ok <==> old(self)@.life_state == (PetState::Alive {  }) && old(
                self,
            )@.can_be_fed(current_timestamp),
    {
        let recorded_dead = match self.life_state {
            PetState::Dead {  } => true,
            PetState::Alive {  } => false,
        };
        if recorded_dead || self.is_dead(current_timestamp) {
            self.life_state = PetState::Dead {  };
            return Err(ContractError::AlreadyDead);
        }
        if !self.can_be_fed(current_timestamp) {
            return Err(ContractError::NotFeedingTime);
        }
        self.feed(current_timestamp);
        Ok(())
    }
}

/// A feed attempt on a living pet succeeds exactly inside the feed window:
/// strictly after `last_fed + allowed_feed_timespan` and strictly before
/// `last_fed + total_saturation_time`.
pub proof fn lemma_feed_window(pet: PetView, now: u64)
    requires
        pet.life_state == (PetState::Alive {  }),
    ensures
        pet.feed_attempt(now).1 is Ok <==> pet.last_fed + pet.allowed_feed_timespan < now
            < pet.last_fed + pet.total_saturation_time,
        pet.feed_attempt(now).1 is Ok ==> pet.feed_attempt(now).0 == pet.fed(now),
{
}

/// After a successful feed at `first`, the window of the next attempt is
/// counted from `first`.
pub proof fn lemma_feed_again(pet: PetView, first: u64, second: u64)
    requires
        pet.feed_attempt(first).1 is Ok,
    ensures
        pet.feed_attempt(first).0.feed_attempt(second).1 is Ok <==> first
            + pet.allowed_feed_timespan < second < first + pet.total_saturation_time,
{
}

/// Death is final: once a feed attempt has found the pet lost, the pet is
/// recorded as dead, and every later attempt fails with `AlreadyDead` and
/// leaves it dead, whatever the clock then says.
pub proof fn lemma_dead_is_final(pet: PetView, now: u64, later: u64)
    requires
        pet.is_lost(now),
    ensures
        pet.feed_attempt(now).1 == Err::<(), ContractError>(ContractError::AlreadyDead),
        pet.feed_attempt(now).0.life_state == (PetState::Dead {  }),
        pet.feed_attempt(now).0.feed_attempt(later) == (
            pet.feed_attempt(now).0,
            Err::<(), ContractError>(ContractError::AlreadyDead),
        ),
{
}

/// The newest pet with the given id among the first `upto` pets of a
/// list, with its position. The scan runs from position `upto - 1` down
/// and ends at the first match, with `SerializationError` at the first
/// pet that cannot be read, and with `NotFound` below position zero.
pub open spec fn find_newest(list: Seq<Option<PetView>>, id: u64, upto: nat) -> Result<
    (u32, PetView),
    ContractError,
>
    decreases upto,
{
    if upto == 0 {
        Err(ContractError::NotFound)
    } else {
        match list[upto - 1] {
            None => Err(ContractError::SerializationError),
            Some(pet) => if pet.id == id {
                Ok(((upto - 1) as u32, pet))
            } else {
                find_newest(list, id, (upto - 1) as nat)
            },
        }
    }
}

/// Whether every position of the list from `from` up to, but not
/// including, `to` holds a pet that can be read and has another id than
/// `id`.
pub open spec fn no_match_between(list: Seq<Option<PetView>>, id: u64, from: int, to: int) -> bool {
    forall|j: int| from <= j < to ==> ((#[trigger] list[j]) matches Some(pet) && pet.id != id)
}

/// The pet of `owner` with the given id and its position: `NotFound`
/// where the owner has no list, `SerializationError` where the list's
/// length is malformed, and else the outcome of the newest-first scan of
/// the owner's pets.
pub open spec fn lookup(m: Map<Seq<u8>, Seq<u8>>, owner: Seq<u8>, id: u64) -> Result<
    (u32, PetView),
    ContractError,
> {
    match pets_header(m, owner) {
        ListHeader::Absent => Err(ContractError::NotFound),
        ListHeader::Malformed => Err(ContractError::SerializationError),
        ListHeader::Length(n) => find_newest(pets_of(m, owner), id, n as nat),
    }
}

/// How far the page reaches back: the number of pets that are not skipped.
pub open spec fn page_reach(len: nat, page: u32, page_size: u32) -> nat {
    if page * page_size >= len {
        0
    } else {
        (len - page * page_size) as nat
    }
}

/// The number of pets on a page.
pub open spec fn page_len(len: nat, page: u32, page_size: u32) -> nat {
    if page_reach(len, page, page_size) < page_size {
        page_reach(len, page, page_size)
    } else {
        page_size as nat
    }
}

/// The list position of the `k`-th pet of a page: pages run from the
/// newest pet to the oldest.
pub open spec fn page_position(len: nat, page: u32, page_size: u32, k: int) -> int {
    len - 1 - page * page_size - k
}

/// Whether every pet of the page can be read.
pub open spec fn page_readable(
    m: Map<Seq<u8>, Seq<u8>>,
    owner: Seq<u8>,
    page: u32,
    page_size: u32,
) -> bool {
    forall|k: int|
        0 <= k < page_len(pets_len(m, owner), page, page_size) ==> (#[trigger] pets_of(
            m,
            owner,
        )[page_position(pets_len(m, owner), page, page_size, k)]) is Some
}

/// Whether `pets` is the page: as many pets as the page has, the `k`-th
/// being the owner's pet at the `k`-th position of the page.
pub open spec fn is_page(
    m: Map<Seq<u8>, Seq<u8>>,
    owner: Seq<u8>,
    page: u32,
    page_size: u32,
    pets: Seq<Pet>,
) -> bool {
    &&& pets.len() == page_len(pets_len(m, owner), page, page_size)
    &&& forall|k: int|
        0 <= k < pets.len() ==> pets_of(m, owner)[page_position(
            pets_len(m, owner),
            page,
            page_size,
            k,
        )] == Some((#[trigger] pets[k])@)
}

/// The pet of `owner` with the given id, and its position in the list.
fn find_pet(storage: &MemoryStorage, owner: &[u8], id: u64) -> (r: Result<
    (u32, Pet),
    ContractError,
>)
    requires
        owner@.len() <= 0xFFFF,
    ensures
        match lookup(stored(*storage), owner@, id) {
            Ok((pos, pet)) => r matches Ok((at, got)) && at == pos && got@ == pet,
            Err(e) => r matches Err(f) && f == e,
        },
{
    let len = match list_len(storage, PREFIX_PETS.as_slice(), owner) {
        None => {
            return Err(ContractError::NotFound);
        },
        Some(Err(_)) => {
            return Err(ContractError::SerializationError);
        },
        Some(Ok(len)) => len,
    };
    let ghost m = stored(*storage);
    let mut i: u32 = len;
    while i > 0
        invariant
            owner@.len() <= 0xFFFF,
            m == stored(*storage),
            pets_header(m, owner@) == ListHeader::Length(len),
            i <= len,
            find_newest(pets_of(m, owner@), id, len as nat) == find_newest(
                pets_of(m, owner@),
                id,
                i as nat,
            ),
        decreases i,
    {
        i = i - 1;
        assert(pets_of(m, owner@)[i as int] == stored_pet(m, owner@, i));
        match list_get(storage, PREFIX_PETS.as_slice(), owner, i) {
            Some(Ok(record)) => match from_record(record) {
                Some(pet) => {
                    if pet.id == id {
                        return Ok((i, pet));
                    }
                },
                None => {
                    return Err(ContractError::SerializationError);
                },
            },
            _ => {
                return Err(ContractError::SerializationError);
            },
        }
    }
    Err(ContractError::NotFound)
}

/// Appends `pet` to the list of `owner`, creating the list where the owner
/// has none.
///
/// Fails, changing nothing, with `SerializationError` where the stored
/// length is malformed and with `Overflow` where the list is full, and
/// succeeds otherwise.
pub fn append_pet(storage: &mut MemoryStorage, pet: &Pet, owner: &[u8]) -> (r: Result<
    (),
    ContractError,
>)
    requires
        owner@.len() <= 0xFFFF,
    ensures
        match pets_header(stored(*old(storage)), owner@) {
            ListHeader::Malformed => r == Err::<(), ContractError>(
                ContractError::SerializationError,
            ) && stored(*final(storage)) == stored(*old(storage)),
            ListHeader::Length(n) => if n == u32::MAX {
                r == Err::<(), ContractError>(ContractError::Overflow) && stored(*final(storage))
                    == stored(*old(storage))
            } else {
                r is Ok && stored(*final(storage)) == pushed(
                    stored(*old(storage)),
                    pets_namespace(owner@),
                    n,
                    encoded_record(record_of(pet@)),
                )
            },
            ListHeader::Absent => r is Ok && stored(*final(storage)) == pushed(
                created(stored(*old(storage)), pets_namespace(owner@)),
                pets_namespace(owner@),
                0,
                encoded_record(record_of(pet@)),
            ),
        },
        r is Ok ==> pets_header(stored(*final(storage)), owner@) == ListHeader::Length(
            (pets_len(stored(*old(storage)), owner@) + 1) as u32,
        ),
        r is Ok ==> pets_of(stored(*final(storage)), owner@) == pets_of(
            stored(*old(storage)),
            owner@,
        ).push(Some(pet@)),
        r is Ok ==> lookup(stored(*final(storage)), owner@, pet.id) == Ok::<
            (u32, PetView),
            ContractError,
        >((pets_len(stored(*old(storage)), owner@) as u32, pet@)),
{
    match list_len(storage, PREFIX_PETS.as_slice(), owner) {
        Some(Ok(len)) => {
            if len == u32::MAX {
                return Err(ContractError::Overflow);
            }
        },
        _ => {},
    }
    let record = to_record(pet);
    match list_push(storage, PREFIX_PETS.as_slice(), owner, &record) {
        Ok(_) => {
            proof {
                lemma_append_extends(stored(*old(storage)), owner@, pet@);
            }
            Ok(())
        },
        Err(_) => Err(ContractError::SerializationError),
    }
}

/// What appending does to the list of its owner: after a pet was written
/// behind the last one, into a list that was created first where it was
/// missing, the list is the old list with that pet added, and a lookup of
/// the pet's id finds it there.
pub proof fn lemma_append_extends(m: Map<Seq<u8>, Seq<u8>>, owner: Seq<u8>, pet: PetView)
    requires
        pets_header(m, owner) != ListHeader::Length(u32::MAX),
        pets_header(m, owner) != ListHeader::Malformed,
        decoded_record(encoded_record(record_of(pet))) == Some(record_of(pet)),
    ensures
        ({
            let base = if pets_header(m, owner) == ListHeader::Absent {
                created(m, pets_namespace(owner))
            } else {
                m
            };
            let after = pushed(
                base,
                pets_namespace(owner),
                pets_len(m, owner) as u32,
                encoded_record(record_of(pet)),
            );
            &&& pets_header(after, owner) == ListHeader::Length((pets_len(m, owner) + 1) as u32)
            &&& pets_of(after, owner) == pets_of(m, owner).push(Some(pet))
            &&& lookup(after, owner, pet.id) == Ok::<(u32, PetView), ContractError>(
                (pets_len(m, owner) as u32, pet),
            )
        }),
{
    let ns = pets_namespace(owner);
    let n = pets_len(m, owner) as u32;
    let base = if pets_header(m, owner) == ListHeader::Absent {
        created(m, ns)
    } else {
        m
    };
    let after = pushed(base, ns, n, encoded_record(record_of(pet)));
    lemma_created(m, ns, 0);
    lemma_pushed(base, ns, n, encoded_record(record_of(pet)), n);
    assert(pets_header(base, owner) == ListHeader::Length(n));
    assert(pets_of(after, owner).len() == n + 1);
    assert forall|i: int| 0 <= i < n + 1 implies pets_of(after, owner)[i] == pets_of(
        m,
        owner,
    ).push(Some(pet))[i] by {
        lemma_pushed(base, ns, n, encoded_record(record_of(pet)), i as u32);
        lemma_created(m, ns, i as u32);
    }
    assert(pets_of(after, owner) =~= pets_of(m, owner).push(Some(pet)));
    assert(pets_of(after, owner)[n as int] == stored_pet(after, owner, n));
}

/// One page of the pets of `owner`, newest first, and the number of all
/// the owner's pets. Page `page` skips the `page * page_size` newest pets
/// and holds up to `page_size` pets.
///
/// An owner without a list has an empty page and no pets; so has any owner
/// on a page that lies behind the oldest pet. Fails with
/// `SerializationError` where the stored length is malformed or a pet of
/// the page cannot be read.
pub fn get_pets(storage: &MemoryStorage, owner: &[u8], page: u32, page_size: u32) -> (r: Result<
    (Vec<Pet>, u64),
    ContractError,
>)
    requires
        owner@.len() <= 0xFFFF,
    ensures
        match r {
            Ok((pets, total)) => {
                &&& pets_header(stored(*storage), owner@) != ListHeader::Malformed
                &&& total == pets_len(stored(*storage), owner@)
                &&& is_page(stored(*storage), owner@, page, page_size, pets@)
            },
            Err(e) => {
                &&& e == ContractError::SerializationError
                &&& pets_header(stored(*storage), owner@) == ListHeader::Malformed
                    || !page_readable(stored(*storage), owner@, page, page_size)
            },
        },
        pets_len(stored(*storage), owner@) == 0 && pets_header(stored(*storage), owner@)
            != ListHeader::Malformed ==> (r matches Ok((pets, total)) && pets@.len() == 0
            && total == 0),
{
    let mut pets: Vec<Pet> = Vec::new();
    let len = match list_len(storage, PREFIX_PETS.as_slice(), owner) {
        None => {
            return Ok((pets, 0));
        },
        Some(Err(_)) => {
            return Err(ContractError::SerializationError);
        },
        Some(Ok(len)) => len,
    };
    assert(page * page_size <= 0xFFFF_FFFF * 0xFFFF_FFFF) by (nonlinear_arith)
        requires
            0 <= page <= 0xFFFF_FFFF,
            0 <= page_size <= 0xFFFF_FFFF,
    ;
    let skip: u64 = page as u64 * page_size as u64;
    if skip >= len as u64 {
        return Ok((pets, len as u64));
    }
    let reach: u32 = len - skip as u32;
    let count: u32 = if reach < page_size {
        reach
    } else {
        page_size
    };
    let ghost m = stored(*storage);
    let mut k: u32 = 0;
    while k < count
        invariant
            owner@.len() <= 0xFFFF,
            m == stored(*storage),
            pets_header(m, owner@) == ListHeader::Length(len),
            skip == page * page_size,
            reach == len - skip,
            count == page_len(len as nat, page, page_size),
            k <= count <= reach,
            pets@.len() == k,
            forall|j: int|
                0 <= j < k ==> pets_of(m, owner@)[page_position(len as nat, page, page_size, j)]
                    == Some((#[trigger] pets@[j])@),
        decreases count - k,
    {
        let pos: u32 = reach - 1 - k;
        assert(pos == page_position(len as nat, page, page_size, k as int));
        assert(pets_of(m, owner@)[pos as int] == stored_pet(m, owner@, pos));
        match list_get(storage, PREFIX_PETS.as_slice(), owner, pos) {
            Some(Ok(record)) => match from_record(record) {
                Some(pet) => {
                    pets.push(pet);
                },
                None => {
                    assert(pets_of(m, owner@)[page_position(
                        pets_len(m, owner@),
                        page,
                        page_size,
                        k as int,
                    )] is None);
                    return Err(ContractError::SerializationError);
                },
            },
            _ => {
                assert(pets_of(m, owner@)[page_position(
                    pets_len(m, owner@),
                    page,
                    page_size,
                    k as int,
                )] is None);
                return Err(ContractError::SerializationError);
            },
        }
        k = k + 1;
    }
    assert forall|j: int| 0 <= j < page_len(len as nat, page, page_size) implies (
    #[trigger] pets_of(m, owner@)[page_position(len as nat, page, page_size, j)]) is Some by {
        assert(pets_of(m, owner@)[page_position(len as nat, page, page_size, j)] == Some(
            pets@[j]@,
        ));
    }
    Ok((pets, len as u64))
}

/// The pet of `owner` with the given id: the first one that a scan from
/// the newest pet to the oldest meets.
///
/// Fails with `NotFound` where the owner has no list or no pet with that
/// id, and with `SerializationError` where the stored length is malformed
/// or the scan meets a pet that cannot be read.
pub fn get_pet(storage: &MemoryStorage, owner: &[u8], id: u64) -> (r: Result<Pet, ContractError>)
    requires
        owner@.len() <= 0xFFFF,
    ensures
        match lookup(stored(*storage), owner@, id) {
            Ok((_, pet)) => r matches Ok(got) && got@ == pet,
            Err(e) => r matches Err(f) && f == e,
        },
        pets_len(stored(*storage), owner@) == 0 && pets_header(stored(*storage), owner@)
            != ListHeader::Malformed ==> (r matches Err(e) && e == ContractError::NotFound),
{
    match find_pet(storage, owner, id) {
        Ok((_, pet)) => Ok(pet),
        Err(e) => Err(e),
    }
}

/// Overwrites the pet of `owner` with the given id by `pet`, at the
/// position where [`get_pet`] finds it.
///
/// Fails, changing nothing, as [`get_pet`] does, and succeeds otherwise.
pub fn update_pet(storage: &mut MemoryStorage, owner: &[u8], id: u64, pet: Pet) -> (r: Result<
    (),
    ContractError,
>)
    requires
        owner@.len() <= 0xFFFF,
    ensures
        match lookup(stored(*old(storage)), owner@, id) {
            Ok((pos, _)) => {
                &&& r is Ok
                &&& stored(*final(storage)) == replaced(
                    stored(*old(storage)),
                    pets_namespace(owner@),
                    pos,
                    encoded_record(record_of(pet@)),
                )
                &&& pets_header(stored(*final(storage)), owner@) == pets_header(
                    stored(*old(storage)),
                    owner@,
                )
                &&& pets_of(stored(*final(storage)), owner@) == pets_of(
                    stored(*old(storage)),
                    owner@,
                ).update(pos as int, Some(pet@))
                &&& pet.id == id ==> lookup(stored(*final(storage)), owner@, id) == Ok::<
                    (u32, PetView),
                    ContractError,
                >((pos, pet@))
            },
            Err(e) => r == Err::<(), ContractError>(e) && stored(*final(storage)) == stored(
                *old(storage),
            ),
        },
{
    let position = match find_pet(storage, owner, id) {
        Ok((position, _)) => position,
        Err(e) => {
            return Err(e);
        },
    };
    proof {
        lemma_found_in_range(
            pets_of(stored(*storage), owner@),
            id,
            pets_len(stored(*storage), owner@),
        );
    }
    let record = to_record(&pet);
    match list_set(storage, PREFIX_PETS.as_slice(), owner, position, &record) {
        Some(Ok(_)) => {
            proof {
                lemma_update_replaces(stored(*old(storage)), owner@, position, pet@);
                if pet.id == id {
                    lemma_lookup_after_update(stored(*old(storage)), owner@, id, pet@);
                }
            }
            Ok(())
        },
        _ => Err(ContractError::SerializationError),
    }
}

/// A pet that the scan finds lies below the bound of the scan, has the id
/// that was asked for, and is the pet at its position.
pub proof fn lemma_found_in_range(list: Seq<Option<PetView>>, id: u64, upto: nat)
    requires
        upto <= u32::MAX,
    ensures
        find_newest(list, id, upto) matches Ok((pos, pet)) ==> pos < upto && pet.id == id
            && list[pos as int] == Some(pet),
    decreases upto,
{
    if upto > 0 {
        lemma_found_in_range(list, id, (upto - 1) as nat);
    }
}

/// The errors of a scan are `NotFound` and `SerializationError`.
pub proof fn lemma_scan_errors(list: Seq<Option<PetView>>, id: u64, upto: nat)
    ensures
        find_newest(list, id, upto) matches Err(e) ==> e == ContractError::NotFound || e
            == ContractError::SerializationError,
    decreases upto,
{
    if upto > 0 {
        lemma_scan_errors(list, id, (upto - 1) as nat);
    }
}

/// What the scan means. It finds the pet at the highest position below
/// `upto` that holds the id, if every pet above that one can be read. It
/// ends with `NotFound` if every pet below `upto` can be read and none
/// has the id. It ends with `SerializationError` at the highest pet that
/// cannot be read, if no pet above it has the id.
pub proof fn lemma_scan_meaning(list: Seq<Option<PetView>>, id: u64, upto: nat)
    requires
        upto <= u32::MAX,
    ensures
        match find_newest(list, id, upto) {
            Ok((pos, pet)) => {
                &&& pos < upto
                &&& list[pos as int] == Some(pet)
                &&& pet.id == id
                &&& no_match_between(list, id, pos + 1, upto as int)
            },
            Err(e) => if e == ContractError::NotFound {
                no_match_between(list, id, 0, upto as int)
            } else {
                &&& e == ContractError::SerializationError
                &&& exists|pos: int|
                    0 <= pos < upto && (#[trigger] list[pos]) is None && no_match_between(
                        list,
                        id,
                        pos + 1,
                        upto as int,
                    )
            },
        },
    decreases upto,
{
    if upto > 0 {
        let top = (upto - 1) as int;
        lemma_scan_meaning(list, id, (upto - 1) as nat);
        match list[top] {
            None => {
                assert(no_match_between(list, id, top + 1, upto as int));
            },
            Some(pet) => {
                if pet.id != id {
                    match find_newest(list, id, (upto - 1) as nat) {
                        Ok((pos, _)) => {
                            assert(no_match_between(list, id, pos + 1, upto as int));
                        },
                        Err(e) => {
                            if e == ContractError::NotFound {
                                assert(no_match_between(list, id, 0, upto as int));
                            } else {
                                let pos = choose|pos: int|
                                    0 <= pos < upto - 1 && (#[trigger] list[pos]) is None
                                        && no_match_between(list, id, pos + 1, upto - 1);
                                assert(no_match_between(list, id, pos + 1, upto as int));
                            }
                        },
                    }
                } else {
                    assert(no_match_between(list, id, top + 1, upto as int));
                }
            },
        }
    }
}

/// What overwriting does to the list of its owner: the list keeps its
/// length and holds the new pet at the position that was written.
pub proof fn lemma_update_replaces(
    m: Map<Seq<u8>, Seq<u8>>,
    owner: Seq<u8>,
    pos: u32,
    pet: PetView,
)
    requires
        pos < pets_len(m, owner),
        decoded_record(encoded_record(record_of(pet))) == Some(record_of(pet)),
    ensures
        ({
            let after = replaced(m, pets_namespace(owner), pos, encoded_record(record_of(pet)));
            &&& pets_header(after, owner) == pets_header(m, owner)
            &&& pets_of(after, owner) == pets_of(m, owner).update(pos as int, Some(pet))
        }),
{
    let ns = pets_namespace(owner);
    let after = replaced(m, ns, pos, encoded_record(record_of(pet)));
    lemma_replaced(m, ns, pos, encoded_record(record_of(pet)), pos);
    assert forall|i: int| 0 <= i < pets_len(m, owner) implies pets_of(after, owner)[i]
        == pets_of(m, owner).update(pos as int, Some(pet))[i] by {
        lemma_replaced(m, ns, pos, encoded_record(record_of(pet)), i as u32);
    }
    assert(pets_of(after, owner) =~= pets_of(m, owner).update(pos as int, Some(pet)));
}

/// After the pet that a lookup finds has been overwritten by a pet with
/// the same id, the lookup finds the new pet at the same position.
pub proof fn lemma_lookup_after_update(
    m: Map<Seq<u8>, Seq<u8>>,
    owner: Seq<u8>,
    id: u64,
    pet: PetView,
)
    requires
        lookup(m, owner, id) is Ok,
        pet.id == id,
        decoded_record(encoded_record(record_of(pet))) == Some(record_of(pet)),
    ensures
        lookup(
            replaced(
                m,
                pets_namespace(owner),
                lookup(m, owner, id)->Ok_0.0,
                encoded_record(record_of(pet)),
            ),
            owner,
            id,
        ) == Ok::<(u32, PetView), ContractError>((lookup(m, owner, id)->Ok_0.0, pet)),
{
    let pos = lookup(m, owner, id)->Ok_0.0;
    lemma_found_in_range(pets_of(m, owner), id, pets_len(m, owner));
    lemma_update_replaces(m, owner, pos, pet);
    lemma_find_after_update(pets_of(m, owner), id, pos, pet, pets_len(m, owner));
}

/// A scan that finds a pet finds, after that pet was replaced by one with
/// the same id, the new pet at the same position.
pub proof fn lemma_find_after_update(
    list: Seq<Option<PetView>>,
    id: u64,
    pos: u32,
    pet: PetView,
    upto: nat,
)
    requires
        upto <= list.len(),
        upto <= u32::MAX,
        find_newest(list, id, upto) is Ok,
        find_newest(list, id, upto)->Ok_0.0 == pos,
        pet.id == id,
    ensures
        find_newest(list.update(pos as int, Some(pet)), id, upto) == Ok::<
            (u32, PetView),
            ContractError,
        >((pos, pet)),
    decreases upto,
{
    if upto > 0 {
        let top = (upto - 1) as u32;
        lemma_found_in_range(list, id, upto);
        if top != pos {
            lemma_find_after_update(list, id, pos, pet, (upto - 1) as nat);
        }
    }
}

} // verus!
