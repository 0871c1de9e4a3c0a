//! Key layout: length-prefixed namespaces and big-endian positions.

use vstd::prelude::*;

verus! {

/// A namespace preceded by its length as two big-endian bytes.
pub open spec fn length_prefixed(namespace: Seq<u8>) -> Seq<u8>
    recommends
        namespace.len() <= 0xFFFF,
{
    seq![(namespace.len() / 0x100) as u8, (namespace.len() % 0x100) as u8] + namespace
}

/// The four big-endian bytes of `n`.
pub open spec fn be32(n: u32) -> Seq<u8> {
    seq![
        (n / 0x100_0000) as u8,
        (n / 0x1_0000 % 0x100) as u8,
        (n / 0x100 % 0x100) as u8,
        (n % 0x100) as u8,
    ]
}

/// The number whose big-endian bytes are `bytes`.
pub open spec fn be32_value(bytes: Seq<u8>) -> u32
    recommends
        bytes.len() == 4,
{
    (bytes[0] * 0x100_0000 + bytes[1] * 0x1_0000 + bytes[2] * 0x100 + bytes[3]) as u32
}

/// Reading back the bytes of a number gives the number.
pub proof fn lemma_be32_round_trip(n: u32)
    ensures
        be32(n).len() == 4,
        be32_value(be32(n)) == n,
{
    let b0 = n / 0x100_0000;
    let b1 = n / 0x1_0000 % 0x100;
    let b2 = n / 0x100 % 0x100;
    let b3 = n % 0x100;
    assert(b0 * 0x100_0000 + b1 * 0x1_0000 + b2 * 0x100 + b3 == n) by (bit_vector)
        requires
            b0 == n / 0x100_0000u32,
            b1 == n / 0x1_0000u32 % 0x100u32,
            b2 == n / 0x100u32 % 0x100u32,
            b3 == n % 0x100u32,
    ;
    assert(b0 < 0x100 && b1 < 0x100 && b2 < 0x100 && b3 < 0x100);
}

/// Different numbers have different bytes.
pub proof fn lemma_be32_injective(a: u32, b: u32)
    requires
        be32(a) == be32(b),
    ensures
        a == b,
{
    lemma_be32_round_trip(a);
    lemma_be32_round_trip(b);
}

/// Two keys under one prefix are equal only if their suffixes are.
pub proof fn lemma_same_prefix(prefix: Seq<u8>, a: Seq<u8>, b: Seq<u8>)
    requires
        prefix + a == prefix + b,
    ensures
        a == b,
{
    assert((prefix + a).len() == prefix.len() + a.len());
    assert((prefix + b).len() == prefix.len() + b.len());
    assert forall|i: int| 0 <= i < a.len() implies a[i] == b[i] by {
        assert((prefix + a)[prefix.len() + i] == a[i]);
        assert((prefix + b)[prefix.len() + i] == b[i]);
    }
    assert(a =~= b);
}

/// Length-prefixed namespaces are prefix-free: keys built under two
/// different namespaces never coincide, whatever follows the namespace.
pub proof fn lemma_namespaces_disjoint(
    outer: Seq<u8>,
    a: Seq<u8>,
    b: Seq<u8>,
    rest_a: Seq<u8>,
    rest_b: Seq<u8>,
)
    requires
        a.len() <= 0xFFFF,
        b.len() <= 0xFFFF,
        a != b,
    ensures
        outer + length_prefixed(a) + rest_a != outer + length_prefixed(b) + rest_b,
{
    let ka = outer + length_prefixed(a) + rest_a;
    let kb = outer + length_prefixed(b) + rest_b;
    if ka == kb {
        let o = outer.len() as int;
        assert(ka[o] == length_prefixed(a)[0]);
        assert(kb[o] == length_prefixed(b)[0]);
        assert(ka[o + 1] == length_prefixed(a)[1]);
        assert(kb[o + 1] == length_prefixed(b)[1]);
        assert(a.len() == b.len()) by {
            let la = a.len();
            let lb = b.len();
            assert((la / 0x100) as u8 == (lb / 0x100) as u8);
            assert((la % 0x100) as u8 == (lb % 0x100) as u8);
            assert(la / 0x100 < 0x100 && lb / 0x100 < 0x100);
        }
        assert forall|i: int| 0 <= i < a.len() implies a[i] == b[i] by {
            assert(ka[o + 2 + i] == length_prefixed(a)[2 + i]);
            assert(kb[o + 2 + i] == length_prefixed(b)[2 + i]);
            assert(length_prefixed(a)[2 + i] == a[i]);
            assert(length_prefixed(b)[2 + i] == b[i]);
        }
        assert(a =~= b);
    }
}

} // verus!
