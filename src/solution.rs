use vstd::prelude::*;

use crate::difficulty::{difficulty, difficulty_spec};
use crate::hashing::{compute_hash, hash_spec};
use crate::puzzle::{equix_builds, seed_spec, solves, verify, CrankXError};

verus! {

/// A digest, its nonce and their commitment hash, which is always derived
/// from the other two.
pub struct Solution {
    /// Raw Equi-X digest (16 bytes).
    d: [u8; 16],
    /// Nonce (8 bytes).
    n: [u8; 8],
    /// Commitment hash of the canonical digest and the nonce (32 bytes).
    h: [u8; 32],
}

impl Solution {
    /// The digest's bytes.
    pub closed spec fn spec_digest(self) -> Seq<u8> {
        self.d@
    }

    /// The nonce's bytes.
    pub closed spec fn spec_nonce(self) -> Seq<u8> {
        self.n@
    }

    /// The stored hash is always the commitment hash of the digest and the
    /// nonce.
    #[verifier::type_invariant]
    spec fn hash_matches(self) -> bool {
        self.h@ == hash_spec(self.d@, self.n@)
    }

    /// The commitment hash of the digest and the nonce.
    pub open spec fn spec_hash(self) -> Seq<u8> {
        hash_spec(self.spec_digest(), self.spec_nonce())
    }

    /// Makes a solution, computing its hash.
    pub fn new(digest: [u8; 16], nonce: [u8; 8]) -> (s: Self)
        ensures
            s.spec_digest() == digest@,
            s.spec_nonce() == nonce@,
    {
        let h = compute_hash(&digest, &nonce);
        Solution { d: digest, n: nonce, h }
    }

    /// Checks the digest against the raw `challenge || data || nonce`, as
    /// `verify` does; difficulty is not checked.
    pub fn is_valid(&self, challenge: &[u8; 32], data: &[u8]) -> (r: Result<(), CrankXError>)
        ensures
            r is Ok <==> solves(challenge@, data@, self.spec_nonce(), self.spec_digest()),
            (r matches Err(CrankXError::EquiXFailure))
                ==> !equix_builds(seed_spec(challenge@, data@, self.spec_nonce())),
            equix_builds(seed_spec(challenge@, data@, self.spec_nonce()))
                && !solves(challenge@, data@, self.spec_nonce(), self.spec_digest())
                ==> (r matches Err(CrankXError::InvalidSolution)),
            r is Err ==> (r matches Err(CrankXError::EquiXFailure))
                || (r matches Err(CrankXError::InvalidSolution)),
    {
        verify(challenge, data, &self.n, &self.d)
    }

    /// The raw digest.
    pub fn digest(&self) -> (r: [u8; 16])
        ensures
            r@ == self.spec_digest(),
    {
        self.d
    }

    /// The nonce.
    pub fn nonce(&self) -> (r: [u8; 8])
        ensures
            r@ == self.spec_nonce(),
    {
        self.n
    }

    /// The commitment hash, as `compute_hash` gives it for the digest and
    /// the nonce.
    pub fn to_hash(&self) -> (r: [u8; 32])
        ensures
            r@ == self.spec_hash(),
    {
        proof {
            use_type_invariant(self);
        }
        self.h
    }

    /// The number of leading zero bits of the commitment hash.
    pub fn difficulty(&self) -> (r: u32)
        ensures
            r == difficulty_spec(self.spec_hash()),
    {
        proof {
            use_type_invariant(self);
        }
        difficulty(self.h)
    }

    /// The 24-byte wire form: digest, then nonce.
    pub fn to_bytes(&self) -> (r: [u8; 24])
        ensures
            r@ == self.spec_digest() + self.spec_nonce(),
    {
        let mut bytes: [u8; 24] = [0u8; 24];
        let mut i: usize = 0;
        while i < 16
            invariant
                0 <= i <= 16,
                bytes@.len() == 24,
                forall|k: int| 0 <= k < i ==> bytes@[k] == self.d@[k],
            decreases 16 - i,
        {
            bytes[i] = self.d[i];
            i = i + 1;
        }
        let mut j: usize = 0;
        while j < 8
            invariant
                0 <= j <= 8,
                bytes@.len() == 24,
                forall|k: int| 0 <= k < 16 ==> bytes@[k] == self.d@[k],
                forall|k: int| 0 <= k < j ==> bytes@[16 + k] == self.n@[k],
            decreases 8 - j,
        {
            bytes[16 + j] = self.n[j];
            j = j + 1;
        }
        assert(bytes@ =~= self.d@ + self.n@);
        bytes
    }

    /// Reads the 24-byte wire form and recomputes the hash.
    pub fn from_bytes(bytes: &[u8; 24]) -> (s: Self)
        ensures
            s.spec_digest() == bytes@.subrange(0, 16),
            s.spec_nonce() == bytes@.subrange(16, 24),
    {
        let mut d: [u8; 16] = [0u8; 16];
        let mut n: [u8; 8] = [0u8; 8];
        let mut i: usize = 0;
        while i < 16
            invariant
                0 <= i <= 16,
                bytes@.len() == 24,
                d@.len() == 16,
                forall|k: int| 0 <= k < i ==> d@[k] == bytes@[k],
            decreases 16 - i,
        {
            d[i] = bytes[i];
            i = i + 1;
        }
        let mut j: usize = 0;
        while j < 8
            invariant
                0 <= j <= 8,
                bytes@.len() == 24,
                n@.len() == 8,
                forall|k: int| 0 <= k < j ==> n@[k] == bytes@[16 + k],
            decreases 8 - j,
        {
            n[j] = bytes[16 + j];
            j = j + 1;
        }
        assert(d@ =~= bytes@.subrange(0, 16));
        assert(n@ =~= bytes@.subrange(16, 24));
        Self::new(d, n)
    }
}

/// Reading back the wire form of a solution gives its digest, its nonce and
/// its hash.
pub proof fn lemma_wire_round_trip(s: Solution, t: Solution)
    requires
        t.spec_digest() == (s.spec_digest() + s.spec_nonce()).subrange(0, 16),
        t.spec_nonce() == (s.spec_digest() + s.spec_nonce()).subrange(16, 24),
    ensures
        t.spec_digest() == s.spec_digest(),
        t.spec_nonce() == s.spec_nonce(),
        t.spec_hash() == s.spec_hash(),
{
    assert((s.spec_digest() + s.spec_nonce()).subrange(0, 16) =~= s.spec_digest());
    assert((s.spec_digest() + s.spec_nonce()).subrange(16, 24) =~= s.spec_nonce());
}

} // verus!
