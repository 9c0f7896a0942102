use vstd::prelude::*;
use vstd::std_specs::bits::{axiom_u8_leading_zeros, u8_leading_zeros};

verus! {

/// Leading zero bits of `h` read as a big-endian bit string, counted from
/// byte `i` on: whole zero bytes count 8 each, and the scan stops at the
/// first non-zero byte, whose own leading zeros are added.
pub open spec fn zero_prefix_from(h: Seq<u8>, i: int) -> nat
    decreases h.len() - i,
{
    if i < 0 || i >= h.len() {
        0
    } else if h[i] == 0 {
        8 + zero_prefix_from(h, i + 1)
    } else {
        u8_leading_zeros(h[i]) as nat
    }
}

/// The difficulty of a hash: the number of its leading zero bits.
pub open spec fn difficulty_spec(h: Seq<u8>) -> nat {
    zero_prefix_from(h, 0)
}

proof fn lemma_zero_prefix_bound(h: Seq<u8>, i: int)
    requires
        0 <= i <= h.len(),
    ensures
        zero_prefix_from(h, i) <= 8 * (h.len() - i),
        (forall|k: int| i <= k < h.len() ==> h[k] == 0) ==> zero_prefix_from(h, i) == 8 * (h.len() - i),
    decreases h.len() - i,
{
    if i < h.len() {
        lemma_zero_prefix_bound(h, i + 1);
        axiom_u8_leading_zeros(h[i]);
    }
}

/// A 32-byte hash has difficulty at most 256; an all-zero hash has exactly
/// 256; a hash whose first byte is `0x80` has difficulty 0.
pub proof fn lemma_difficulty_range(h: Seq<u8>)
    requires
        h.len() == 32,
    ensures
        difficulty_spec(h) <= 256,
        (forall|k: int| 0 <= k < 32 ==> h[k] == 0) ==> difficulty_spec(h) == 256,
        h[0] == 0x80 ==> difficulty_spec(h) == 0,
{
    lemma_zero_prefix_bound(h, 0);
    if h[0] == 0x80 {
        axiom_u8_leading_zeros(0x80u8);
        let lz = u8_leading_zeros(0x80u8);
        if lz != 0 {
            assert((0x80u8 >> 7u8) & 1u8 == 1u8) by (bit_vector);
            assert(8 - lz <= 7);
        }
    }
}

/// Counts the leading zero bits of a 32-byte hash, stopping at the first
/// byte that is not zero.
pub fn difficulty(hash: [u8; 32]) -> (r: u32)
    ensures
        r == difficulty_spec(hash@),
{
    let mut count: u32 = 0;
    let mut i: usize = 0;
    while i < 32
        invariant
            0 <= i <= 32,
            hash@.len() == 32,
            count == 8 * i,
            count + zero_prefix_from(hash@, i as int) == difficulty_spec(hash@),
        decreases 32 - i,
    {
        let b = hash[i];
        let lz = b.leading_zeros();
        proof {
            axiom_u8_leading_zeros(b);
        }
        count = count + lz;
        if lz < 8 {
            return count;
        }
        i = i + 1;
    }
    count
}

} // verus!
