//! What a write leaves alone: the lists of different owners and the
//! singleton state lie under disjoint keys, so a write to one of them is
//! not seen through any other.

use crate::pet::records::pets_header;
use crate::pet::records::pets_len;
use crate::pet::records::pets_namespace;
use crate::pet::records::pets_of;
use crate::pet::state::CONFIG_KEY;
use crate::pet::state::PETS_COUNT_KEY;
use crate::pet::state::PREFIX_PETS;
use crate::pet::state::PREFIX_STATE;
use crate::pet::state::readable_count;
use crate::pet::state::state_key;
use crate::pet::state::stored_config;
use crate::storage::append_list::created;
use crate::storage::append_list::LEN_KEY;
use crate::storage::append_list::len_key;
use crate::storage::append_list::pushed;
use crate::storage::append_list::replaced;
use crate::storage::append_list::slot_key;
use crate::storage::keys::be32;
use crate::storage::keys::lemma_namespaces_disjoint;
use crate::storage::keys::length_prefixed;
use vstd::prelude::*;

verus! {

/// Whether `after` and `m` hold the same under every key that does not
/// begin with `namespace`.
pub open spec fn same_outside(
    m: Map<Seq<u8>, Seq<u8>>,
    after: Map<Seq<u8>, Seq<u8>>,
    namespace: Seq<u8>,
) -> bool {
    forall|key: Seq<u8>|
        #![trigger after.contains_key(key)]
        #![trigger after[key]]
        !namespace.is_prefix_of(key) ==> after.contains_key(key) == m.contains_key(key)
            && after[key] == m[key]
}

/// Whether `after` and `m` hold the same under every key that begins with
/// `namespace`.
pub open spec fn same_inside(
    m: Map<Seq<u8>, Seq<u8>>,
    after: Map<Seq<u8>, Seq<u8>>,
    namespace: Seq<u8>,
) -> bool {
    forall|key: Seq<u8>|
        #![trigger after.contains_key(key)]
        #![trigger after[key]]
        namespace.is_prefix_of(key) ==> after.contains_key(key) == m.contains_key(key)
            && after[key] == m[key]
}

/// Whether the list of `owner` is the same in `after` as in `m`: it
/// exists alike and holds the same pets, so that every page and every
/// lookup is the same.
pub open spec fn list_kept(
    m: Map<Seq<u8>, Seq<u8>>,
    after: Map<Seq<u8>, Seq<u8>>,
    owner: Seq<u8>,
) -> bool {
    &&& pets_header(after, owner) == pets_header(m, owner)
    &&& pets_of(after, owner) == pets_of(m, owner)
}

/// Whether the lists of all owners but `owner` are the same in `after` as
/// in `m`.
pub open spec fn others_kept(
    m: Map<Seq<u8>, Seq<u8>>,
    after: Map<Seq<u8>, Seq<u8>>,
    owner: Seq<u8>,
) -> bool {
    forall|other: Seq<u8>|
        #![trigger pets_of(after, other)]
        #![trigger pets_header(after, other)]
        other.len() <= 0xFFFF && other != owner ==> list_kept(m, after, other)
}

/// Whether the lists of all owners are the same in `after` as in `m`.
pub open spec fn lists_kept(m: Map<Seq<u8>, Seq<u8>>, after: Map<Seq<u8>, Seq<u8>>) -> bool {
    forall|owner: Seq<u8>|
        #![trigger pets_of(after, owner)]
        #![trigger pets_header(after, owner)]
        list_kept(m, after, owner)
}

/// Whether the configuration and the counter of all pets are the same in
/// `after` as in `m`.
pub open spec fn state_kept(m: Map<Seq<u8>, Seq<u8>>, after: Map<Seq<u8>, Seq<u8>>) -> bool {
    stored_config(after) == stored_config(m) && readable_count(after) == readable_count(m)
}

proof fn lemma_prefix_of_concat(namespace: Seq<u8>, rest: Seq<u8>)
    ensures
        namespace.is_prefix_of(namespace + rest),
{
    assert((namespace + rest).subrange(0, namespace.len() as int) =~= namespace);
}

proof fn lemma_split_at_prefix(namespace: Seq<u8>, key: Seq<u8>)
    requires
        namespace.is_prefix_of(key),
    ensures
        key == namespace + key.subrange(namespace.len() as int, key.len() as int),
{
    assert(key =~= namespace + key.subrange(namespace.len() as int, key.len() as int));
}

/// No key lies in the lists of two owners.
pub proof fn lemma_owners_apart(owner: Seq<u8>, other: Seq<u8>, key: Seq<u8>)
    requires
        owner.len() <= 0xFFFF,
        other.len() <= 0xFFFF,
        owner != other,
        pets_namespace(other).is_prefix_of(key),
    ensures
        !pets_namespace(owner).is_prefix_of(key),
{
    if pets_namespace(owner).is_prefix_of(key) {
        let rest_a = key.subrange(pets_namespace(owner).len() as int, key.len() as int);
        let rest_b = key.subrange(pets_namespace(other).len() as int, key.len() as int);
        lemma_split_at_prefix(pets_namespace(owner), key);
        lemma_split_at_prefix(pets_namespace(other), key);
        lemma_namespaces_disjoint(length_prefixed(PREFIX_PETS@), owner, other, rest_a, rest_b);
    }
}

/// No slot of the singleton state lies in the list of an owner.
pub proof fn lemma_state_apart(owner: Seq<u8>, key: Seq<u8>)
    ensures
        !pets_namespace(owner).is_prefix_of(state_key(key)),
        !length_prefixed(PREFIX_STATE@).is_prefix_of(pets_namespace(owner)),
{
    let ns = pets_namespace(owner);
    assert(ns[1] == length_prefixed(PREFIX_PETS@)[1]);
    assert(length_prefixed(PREFIX_PETS@)[1] == 4);
    assert(state_key(key)[1] == length_prefixed(PREFIX_STATE@)[1]);
    assert(length_prefixed(PREFIX_STATE@)[1] == 5);
    if ns.is_prefix_of(state_key(key)) {
        assert(state_key(key).subrange(0, ns.len() as int)[1] == ns[1]);
    }
    if length_prefixed(PREFIX_STATE@).is_prefix_of(ns) {
        assert(ns.subrange(0, length_prefixed(PREFIX_STATE@).len() as int)[1]
            == length_prefixed(PREFIX_STATE@)[1]);
    }
}

/// Creating a list, appending to it and overwriting one of its positions
/// change nothing outside its namespace.
pub proof fn lemma_list_writes_stay_inside(
    m: Map<Seq<u8>, Seq<u8>>,
    namespace: Seq<u8>,
    pos: u32,
    bytes: Seq<u8>,
)
    ensures
        same_outside(m, created(m, namespace), namespace),
        pos < u32::MAX ==> same_outside(m, pushed(m, namespace, pos, bytes), namespace),
        same_outside(m, replaced(m, namespace, pos, bytes), namespace),
{
    lemma_prefix_of_concat(namespace, LEN_KEY@);
    lemma_prefix_of_concat(namespace, be32(pos));
}

/// Agreement outside a namespace carries over two steps.
pub proof fn lemma_same_outside_twice(
    m: Map<Seq<u8>, Seq<u8>>,
    between: Map<Seq<u8>, Seq<u8>>,
    after: Map<Seq<u8>, Seq<u8>>,
    namespace: Seq<u8>,
)
    requires
        same_outside(m, between, namespace),
        same_outside(between, after, namespace),
    ensures
        same_outside(m, after, namespace),
{
    assert forall|key: Seq<u8>| !namespace.is_prefix_of(key) implies after.contains_key(key)
        == m.contains_key(key) && after[key] == m[key] by {
        assert(between.contains_key(key) == m.contains_key(key));
        assert(between[key] == m[key]);
    }
}

/// A change inside the list of one owner changes neither the list of any
/// other owner nor the singleton state.
pub proof fn lemma_change_is_local(
    m: Map<Seq<u8>, Seq<u8>>,
    after: Map<Seq<u8>, Seq<u8>>,
    owner: Seq<u8>,
)
    requires
        owner.len() <= 0xFFFF,
        same_outside(m, after, pets_namespace(owner)),
    ensures
        others_kept(m, after, owner),
        state_kept(m, after),
{
    assert forall|other: Seq<u8>| other.len() <= 0xFFFF && other != owner implies list_kept(
        m,
        after,
        other,
    ) by {
        assert forall|key: Seq<u8>|
            #![trigger after.contains_key(key)]
            #![trigger after[key]]
            pets_namespace(other).is_prefix_of(key) implies after.contains_key(key)
            == m.contains_key(key) && after[key] == m[key] by {
            lemma_owners_apart(owner, other, key);
        }
        lemma_list_kept(m, after, other);
    }
    lemma_state_apart(owner, CONFIG_KEY@);
    lemma_state_apart(owner, PETS_COUNT_KEY@);
    assert(after.contains_key(state_key(CONFIG_KEY@)) == m.contains_key(state_key(CONFIG_KEY@)));
    assert(after[state_key(CONFIG_KEY@)] == m[state_key(CONFIG_KEY@)]);
    assert(after.contains_key(state_key(PETS_COUNT_KEY@)) == m.contains_key(
        state_key(PETS_COUNT_KEY@),
    ));
    assert(after[state_key(PETS_COUNT_KEY@)] == m[state_key(PETS_COUNT_KEY@)]);
}

/// A list is the same in two maps that agree on all its keys.
pub proof fn lemma_list_kept(
    m: Map<Seq<u8>, Seq<u8>>,
    after: Map<Seq<u8>, Seq<u8>>,
    other: Seq<u8>,
)
    requires
        same_inside(m, after, pets_namespace(other)),
    ensures
        list_kept(m, after, other),
{
    let ns = pets_namespace(other);
    lemma_prefix_of_concat(ns, LEN_KEY@);
    assert(after.contains_key(len_key(ns)) == m.contains_key(len_key(ns)));
    assert(after[len_key(ns)] == m[len_key(ns)]);
    assert forall|i: int| 0 <= i < pets_len(m, other) implies pets_of(after, other)[i] == pets_of(
        m,
        other,
    )[i] by {
        let key = slot_key(ns, i as u32);
        lemma_prefix_of_concat(ns, be32(i as u32));
        assert(after.contains_key(key) == m.contains_key(key));
        assert(after[key] == m[key]);
    }
    assert(pets_of(after, other) =~= pets_of(m, other));
}

/// A write to a slot of the singleton state changes the list of no owner.
pub proof fn lemma_state_write_keeps_lists(
    m: Map<Seq<u8>, Seq<u8>>,
    key: Seq<u8>,
    value: Seq<u8>,
)
    ensures
        lists_kept(m, m.insert(state_key(key), value)),
{
    let after = m.insert(state_key(key), value);
    assert forall|owner: Seq<u8>| list_kept(m, after, owner) by {
        assert forall|k: Seq<u8>|
            #![trigger after.contains_key(k)]
            #![trigger after[k]]
            pets_namespace(owner).is_prefix_of(k) implies after.contains_key(k) == m.contains_key(
            k,
        ) && after[k] == m[k] by {
            lemma_state_apart(owner, key);
        }
        lemma_list_kept(m, after, owner);
    }
}

} // verus!
