//! How an append-only list lies in the store: under its namespace, the key
//! `len` holds the number of items as four big-endian bytes, and the item
//! at position `i` lies under the four big-endian bytes of `i`.

use crate::storage::keys::be32;
use crate::storage::keys::be32_value;
use crate::storage::keys::lemma_be32_injective;
use crate::storage::keys::lemma_be32_round_trip;
use crate::storage::keys::lemma_same_prefix;
use vstd::prelude::*;

verus! {

/// `b"len"`: the key, inside a list's namespace, of its length.
pub const LEN_KEY: [u8; 3] = [108, 101, 110];

/// What the store says about the existence and the length of a list.
pub enum ListHeader {
    /// No length is stored: the list was never created.
    Absent,
    /// The stored length is not four bytes long.
    Malformed,
    /// The list exists and has this many items.
    Length(u32),
}

/// The raw key of the length of the list under `namespace`.
pub open spec fn len_key(namespace: Seq<u8>) -> Seq<u8> {
    namespace + LEN_KEY@
}

/// The raw key of position `pos` of the list under `namespace`.
pub open spec fn slot_key(namespace: Seq<u8>, pos: u32) -> Seq<u8> {
    namespace + be32(pos)
}

/// The header of the list under `namespace` in the entries `m`.
pub open spec fn list_header(m: Map<Seq<u8>, Seq<u8>>, namespace: Seq<u8>) -> ListHeader {
    if !m.contains_key(len_key(namespace)) {
        ListHeader::Absent
    } else if m[len_key(namespace)].len() != 4 {
        ListHeader::Malformed
    } else {
        ListHeader::Length(be32_value(m[len_key(namespace)]))
    }
}

/// The entries after an empty list has been created under `namespace`.
pub open spec fn created(m: Map<Seq<u8>, Seq<u8>>, namespace: Seq<u8>) -> Map<Seq<u8>, Seq<u8>> {
    m.insert(len_key(namespace), be32(0))
}

/// The entries after `bytes` has been appended to a list of `n` items.
pub open spec fn pushed(
    m: Map<Seq<u8>, Seq<u8>>,
    namespace: Seq<u8>,
    n: u32,
    bytes: Seq<u8>,
) -> Map<Seq<u8>, Seq<u8>>
    recommends
        n < u32::MAX,
{
    m.insert(slot_key(namespace, n), bytes).insert(len_key(namespace), be32((n + 1) as u32))
}

/// The entries after position `pos` has been overwritten with `bytes`.
pub open spec fn replaced(
    m: Map<Seq<u8>, Seq<u8>>,
    namespace: Seq<u8>,
    pos: u32,
    bytes: Seq<u8>,
) -> Map<Seq<u8>, Seq<u8>> {
    m.insert(slot_key(namespace, pos), bytes)
}

/// The key of the length is the key of no position, and two positions
/// share a key only if they are the same.
pub proof fn lemma_keys_distinct(namespace: Seq<u8>, a: u32, b: u32)
    ensures
        slot_key(namespace, a) != len_key(namespace),
        a != b ==> slot_key(namespace, a) != slot_key(namespace, b),
{
    lemma_be32_round_trip(a);
    assert(slot_key(namespace, a).len() == namespace.len() + 4);
    assert(len_key(namespace).len() == namespace.len() + 3);
    if a != b && slot_key(namespace, a) == slot_key(namespace, b) {
        lemma_same_prefix(namespace, be32(a), be32(b));
        lemma_be32_injective(a, b);
    }
}

/// Creating a list gives it length zero and leaves every position as it
/// was.
pub proof fn lemma_created(m: Map<Seq<u8>, Seq<u8>>, namespace: Seq<u8>, pos: u32)
    ensures
        list_header(created(m, namespace), namespace) == ListHeader::Length(0),
        created(m, namespace).contains_key(slot_key(namespace, pos)) == m.contains_key(
            slot_key(namespace, pos),
        ),
        created(m, namespace)[slot_key(namespace, pos)] == m[slot_key(namespace, pos)],
{
    lemma_be32_round_trip(0);
    lemma_keys_distinct(namespace, pos, pos);
}

/// Appending to a list of `n` items makes its length `n + 1`, puts the new
/// bytes at position `n` and leaves every other position as it was.
pub proof fn lemma_pushed(
    m: Map<Seq<u8>, Seq<u8>>,
    namespace: Seq<u8>,
    n: u32,
    bytes: Seq<u8>,
    pos: u32,
)
    requires
        n < u32::MAX,
    ensures
        list_header(pushed(m, namespace, n, bytes), namespace) == ListHeader::Length(
            (n + 1) as u32,
        ),
        pushed(m, namespace, n, bytes).contains_key(slot_key(namespace, n)),
        pushed(m, namespace, n, bytes)[slot_key(namespace, n)] == bytes,
        pos != n ==> pushed(m, namespace, n, bytes).contains_key(slot_key(namespace, pos))
            == m.contains_key(slot_key(namespace, pos)),
        pos != n ==> pushed(m, namespace, n, bytes)[slot_key(namespace, pos)] == m[slot_key(
            namespace,
            pos,
        )],
{
    lemma_be32_round_trip((n + 1) as u32);
    lemma_keys_distinct(namespace, n, pos);
    lemma_keys_distinct(namespace, pos, n);
}

/// Overwriting position `pos` keeps the length, puts the new bytes at
/// `pos` and leaves every other position as it was.
pub proof fn lemma_replaced(
    m: Map<Seq<u8>, Seq<u8>>,
    namespace: Seq<u8>,
    pos: u32,
    bytes: Seq<u8>,
    other: u32,
)
    ensures
        list_header(replaced(m, namespace, pos, bytes), namespace) == list_header(m, namespace),
        replaced(m, namespace, pos, bytes).contains_key(slot_key(namespace, pos)),
        replaced(m, namespace, pos, bytes)[slot_key(namespace, pos)] == bytes,
        other != pos ==> replaced(m, namespace, pos, bytes).contains_key(
            slot_key(namespace, other),
        ) == m.contains_key(slot_key(namespace, other)),
        other != pos ==> replaced(m, namespace, pos, bytes)[slot_key(namespace, other)]
            == m[slot_key(namespace, other)],
{
    lemma_keys_distinct(namespace, pos, other);
    lemma_keys_distinct(namespace, other, pos);
}

} // verus!
