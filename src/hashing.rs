use sha3::Digest;
use vstd::prelude::*;

use crate::canonical::{canonical_spec, canonicalize, words_of, lemma_permuted_digests_canonicalize_equal};

verus! {

/// What Keccak-256 gives for a byte string.
pub uninterp spec fn keccak256_of(bytes: Seq<u8>) -> Seq<u8>;

/// Relies on sha3::Keccak256 (new, update, finalize): the 32-byte Keccak-256
/// digest of the bytes, a function of the bytes alone.
#[verifier::external_body]
fn keccak256(bytes: &[u8]) -> (r: [u8; 32])
    ensures
        r@ == keccak256_of(bytes@),
{
    let mut hasher = sha3::Keccak256::new();
    hasher.update(bytes);
    hasher.finalize().into()
}

/// The commitment hash of a digest and a nonce: Keccak-256 over the
/// canonical digest followed by the nonce.
pub open spec fn hash_spec(digest: Seq<u8>, nonce: Seq<u8>) -> Seq<u8> {
    keccak256_of(canonical_spec(digest) + nonce)
}

/// Hashes the canonical form of `digest` followed by `nonce`.
pub fn compute_hash(digest: &[u8; 16], nonce: &[u8; 8]) -> (r: [u8; 32])
    ensures
        r@ == hash_spec(digest@, nonce@),
{
    let c = canonicalize(digest);
    let mut buf: Vec<u8> = Vec::new();
    let mut i: usize = 0;
    while i < 16
        invariant
            0 <= i <= 16,
            c@.len() == 16,
            buf@ == c@.take(i as int),
        decreases 16 - i,
    {
        buf.push(c[i]);
        i = i + 1;
        assert(buf@ =~= c@.take(i as int));
    }
    let mut j: usize = 0;
    while j < 8
        invariant
            0 <= j <= 8,
            c@.len() == 16,
            nonce@.len() == 8,
            buf@ == c@ + nonce@.take(j as int),
        decreases 8 - j,
    {
        buf.push(nonce[j]);
        j = j + 1;
        assert(buf@ =~= c@ + nonce@.take(j as int));
    }
    assert(c@.take(16) =~= c@);
    assert(nonce@.take(8) =~= nonce@);
    keccak256(buf.as_slice())
}

/// Digests whose 16-bit words are rearrangements of one another have one
/// commitment hash for any nonce.
pub proof fn lemma_permuted_digests_hash_equal(a: Seq<u8>, b: Seq<u8>, nonce: Seq<u8>)
    requires
        words_of(a).to_multiset() == words_of(b).to_multiset(),
    ensures
        canonical_spec(a) == canonical_spec(b),
        hash_spec(a, nonce) == hash_spec(b, nonce),
{
    lemma_permuted_digests_canonicalize_equal(a, b);
}

} // verus!
