use vstd::prelude::*;

use crate::difficulty::difficulty_spec;
use crate::hashing::hash_spec;
use crate::puzzle::{equix_builds, equix_solutions, seed_spec, solve_outcome, solve_with_memory, solves, CrankXError};
use crate::solution::Solution;

verus! {

/// The difficulty that a solution must reach to be accepted.
pub const DIFFICULTY: u32 = 8;

/// The `k` low bytes of `n`, least significant first.
pub open spec fn le_bytes(n: nat, k: nat) -> Seq<u8>
    decreases k,
{
    if k == 0 {
        Seq::empty()
    } else {
        seq![(n % 256) as u8] + le_bytes(n / 256, (k - 1) as nat)
    }
}

/// Relies on equix::SolverMemory::new: fresh solver memory.
#[verifier::external_body]
fn new_solver_memory() -> (r: equix::SolverMemory) {
    equix::SolverMemory::new()
}

/// The little-endian bytes of a nonce counter.
pub fn nonce_bytes(n: u64) -> (r: [u8; 8])
    ensures
        r@ == le_bytes(n as nat, 8),
{
    let mut out: [u8; 8] = [0u8; 8];
    let mut x: u64 = n;
    let mut i: usize = 0;
    while i < 8
        invariant
            0 <= i <= 8,
            out@.len() == 8,
            forall|k: int| i <= k < 8 ==> out@[k] == 0,
            le_bytes(n as nat, 8) == out@.take(i as int) + le_bytes(x as nat, (8 - i) as nat),
        decreases 8 - i,
    {
        let ghost prev = out@;
        out[i] = (x % 256) as u8;
        proof {
            assert(le_bytes(x as nat, (8 - i) as nat) == seq![(x % 256) as u8] + le_bytes((x / 256) as nat, (8 - i - 1) as nat));
            assert(out@.take(i + 1) =~= prev.take(i as int) + seq![(x % 256) as u8]);
        }
        x = x / 256;
        i = i + 1;
    }
    assert(out@.take(8) =~= out@);
    out
}

/// The seed for the nonce counter `k`.
pub open spec fn nonce_seed(challenge: Seq<u8>, data: Seq<u8>, k: nat) -> Seq<u8> {
    seed_spec(challenge, data, le_bytes(k, 8))
}

/// Whether the nonce counter `k` is accepted: its puzzle can be built, the
/// solver finds a digest for it, and the first digest found reaches
/// `DIFFICULTY`.
pub open spec fn accepted_at(challenge: Seq<u8>, data: Seq<u8>, k: nat) -> bool {
    let seed = nonce_seed(challenge, data, k);
    equix_builds(seed) && equix_solutions(seed).len() > 0
        && difficulty_spec(hash_spec(equix_solutions(seed)[0], le_bytes(k, 8))) >= DIFFICULTY
}

/// Searches the nonces 0, 1, 2, ... for a solution whose difficulty reaches
/// `DIFFICULTY`; a nonce whose puzzle fails or gives no solution, or whose
/// solution is too easy, is passed over. Gives the solution of the least
/// accepted nonce, and fails with `NoSolution` only when no nonce is
/// accepted.
pub fn do_work(challenge: [u8; 32], data: &[u8]) -> (r: Result<Solution, CrankXError>)
    ensures
        r matches Ok(s) ==> exists|k: u64| {
            &&& s.spec_nonce() == le_bytes(k as nat, 8)
            &&& #[trigger] accepted_at(challenge@, data@, k as nat)
            &&& s.spec_digest() == equix_solutions(nonce_seed(challenge@, data@, k as nat))[0]
            &&& forall|j: u64| j < k ==> !#[trigger] accepted_at(challenge@, data@, j as nat)
        },
        r matches Ok(s) ==> difficulty_spec(s.spec_hash()) >= DIFFICULTY
            && solves(challenge@, data@, s.spec_nonce(), s.spec_digest()),
        r is Err <==> forall|k: u64| !#[trigger] accepted_at(challenge@, data@, k as nat),
        r is Err ==> (r matches Err(CrankXError::NoSolution)),
{
    let mut memory = new_solver_memory();
    let mut nonce: u64 = 0;
    loop
        invariant
            forall|j: u64| j < nonce ==> !#[trigger] accepted_at(challenge@, data@, j as nat),
        decreases u64::MAX - nonce,
    {
        let bytes = nonce_bytes(nonce);
        let outcome = solve_with_memory(&mut memory, &challenge, data, &bytes);
        let ghost seed = nonce_seed(challenge@, data@, nonce as nat);
        assert(solve_outcome(seed, bytes@, outcome));
        match outcome {
            Ok(solution) => {
                let level = solution.difficulty();
                if level >= DIFFICULTY {
                    assert(accepted_at(challenge@, data@, nonce as nat));
                    return Ok(solution);
                }
                assert(!accepted_at(challenge@, data@, nonce as nat));
            },
            Err(_) => {
                assert(!accepted_at(challenge@, data@, nonce as nat));
            },
        }
        if nonce == u64::MAX {
            assert forall|k: u64| !#[trigger] accepted_at(challenge@, data@, k as nat) by {
                if k < nonce {
                }
            }
            return Err(CrankXError::NoSolution);
        }
        nonce = nonce + 1;
    }
}

/// Accepts a solution when its digest solves the puzzle of
/// `challenge || data || nonce` and its difficulty reaches `DIFFICULTY`;
/// rejects it otherwise with `InvalidSolution`.
pub fn prove_work(challenge: &[u8; 32], data: &[u8], solution: &Solution) -> (r: Result<(), CrankXError>)
    ensures
        r is Ok <==> solves(challenge@, data@, solution.spec_nonce(), solution.spec_digest())
            && difficulty_spec(solution.spec_hash()) >= DIFFICULTY,
        r is Err ==> (r matches Err(CrankXError::InvalidSolution)),
{
    if solution.is_valid(challenge, data).is_err() {
        return Err(CrankXError::InvalidSolution);
    }
    if solution.difficulty() < DIFFICULTY {
        return Err(CrankXError::InvalidSolution);
    }
    Ok(())
}

} // verus!
