use vstd::prelude::*;

use crate::solution::Solution;

verus! {

#[verifier::external_type_specification]
#[verifier::external_body]
pub struct ExEquixError(equix::Error);

#[verifier::external_type_specification]
#[verifier::external_body]
pub struct ExSolverMemory(equix::SolverMemory);

/// Errors of solving and verifying.
#[derive(Debug, PartialEq, Eq, Structural)]
pub enum CrankXError {
    /// The puzzle could not be built or solved for the seed.
    EquiXFailure,
    /// The puzzle was solved but gave no solution for the seed.
    NoSolution,
    /// The solution is not good enough.
    InvalidSolution,
}

impl CrankXError {
    /// A short description of the error.
    pub fn message(&self) -> (r: &'static str)
        ensures
            *self == CrankXError::EquiXFailure ==> r@ == "EquiX build/solve failed"@,
            *self == CrankXError::NoSolution ==> r@ == "No EquiX solution found"@,
            *self == CrankXError::InvalidSolution ==> r@ == "Invalid EquiX solution"@,
    {
        match self {
            CrankXError::EquiXFailure => "EquiX build/solve failed",
            CrankXError::NoSolution => "No EquiX solution found",
            CrankXError::InvalidSolution => "Invalid EquiX solution",
        }
    }
}

/// Whether Equi-X accepts the 16-byte digest as a solution of the puzzle
/// built from the seed.
pub uninterp spec fn equix_accepts(seed: Seq<u8>, digest: Seq<u8>) -> bool;

/// Whether Equi-X can build a puzzle from the seed.
pub uninterp spec fn equix_builds(seed: Seq<u8>) -> bool;

/// The solutions, as 16-byte digests in the order found, that the Equi-X
/// solver finds for the puzzle built from the seed.
pub uninterp spec fn equix_solutions(seed: Seq<u8>) -> Seq<Seq<u8>>;

/// Relies on equix::verify_bytes: `Ok` exactly when the digest is a
/// well-formed solution of the puzzle built from the seed. Its
/// `Error::Hash` (the puzzle cannot be built) becomes `EquiXFailure`; its
/// `Error::Order` and `Error::HashSum` (the digest is rejected) become
/// `InvalidSolution`. The order check comes before the build.
#[verifier::external_body]
fn equix_verify_bytes(seed: &[u8], digest: &[u8; 16]) -> (r: Result<(), CrankXError>)
    ensures
        r is Ok <==> equix_accepts(seed@, digest@),
        r is Ok ==> equix_builds(seed@),
        (r matches Err(CrankXError::EquiXFailure)) ==> !equix_builds(seed@),
        r is Err ==> (r matches Err(CrankXError::EquiXFailure))
            || (r matches Err(CrankXError::InvalidSolution)),
        equix_builds(seed@) && r is Err ==> (r matches Err(CrankXError::InvalidSolution)),
{
    match equix::verify_bytes(seed, digest) {
        Ok(()) => Ok(()),
        Err(equix::Error::Hash(_)) => Err(CrankXError::EquiXFailure),
        Err(_) => Err(CrankXError::InvalidSolution),
    }
}

/// Relies on equix::solve: fails exactly when no puzzle can be built from
/// the seed; else gives the solutions found, as bytes (Solution::to_bytes),
/// each of which passes equix::verify_bytes on that seed.
#[verifier::external_body]
fn equix_solve(seed: &[u8]) -> (r: Result<Vec<[u8; 16]>, equix::Error>)
    ensures
        r is Err <==> !equix_builds(seed@),
        r matches Ok(v) ==> v@.map_values(|a: [u8; 16]| a@) == equix_solutions(seed@),
        r matches Ok(v) ==> forall|i: int| 0 <= i < v@.len() ==> equix_accepts(seed@, #[trigger] v@[i]@),
{
    match equix::solve(seed) {
        Ok(found) => Ok(found.iter().map(|s| s.to_bytes()).collect()),
        Err(e) => Err(e),
    }
}

/// Relies on equix::EquiXBuilder (runtime TryCompile, build) and
/// EquiX::solve_with_memory: fails exactly when no puzzle can be built from
/// the seed; else gives the same solutions as equix::solve, as bytes, found
/// with the caller's memory.
#[verifier::external_body]
fn equix_solve_with_memory(mem: &mut equix::SolverMemory, seed: &[u8]) -> (r: Result<Vec<[u8; 16]>, equix::Error>)
    ensures
        r is Err <==> !equix_builds(seed@),
        r matches Ok(v) ==> v@.map_values(|a: [u8; 16]| a@) == equix_solutions(seed@),
        r matches Ok(v) ==> forall|i: int| 0 <= i < v@.len() ==> equix_accepts(seed@, #[trigger] v@[i]@),
{
    match equix::EquiXBuilder::new().runtime(equix::RuntimeOption::TryCompile).build(seed) {
        Ok(eq) => Ok(eq.solve_with_memory(mem).iter().map(|s| s.to_bytes()).collect()),
        Err(e) => Err(e),
    }
}

/// The puzzle seed: challenge, then the whole data segment, then the nonce.
pub open spec fn seed_spec(challenge: Seq<u8>, data: Seq<u8>, nonce: Seq<u8>) -> Seq<u8> {
    challenge + data + nonce
}

/// Whether `digest` solves the puzzle of `challenge || data || nonce`.
pub open spec fn solves(challenge: Seq<u8>, data: Seq<u8>, nonce: Seq<u8>, digest: Seq<u8>) -> bool {
    equix_accepts(seed_spec(challenge, data, nonce), digest)
}

fn push_all(out: &mut Vec<u8>, bytes: &[u8])
    ensures
        final(out)@ == old(out)@ + bytes@,
{
    let ghost start = out@;
    let mut i: usize = 0;
    while i < bytes.len()
        invariant
            0 <= i <= bytes@.len(),
            out@ == start + bytes@.take(i as int),
        decreases bytes@.len() - i,
    {
        out.push(bytes[i]);
        i = i + 1;
        assert(out@ =~= start + bytes@.take(i as int));
    }
    assert(bytes@.take(bytes@.len() as int) =~= bytes@);
}

/// Builds the seed `challenge || data || nonce`, with no length prefixes.
pub fn build_seed(challenge: &[u8; 32], data: &[u8], nonce: &[u8; 8]) -> (r: Vec<u8>)
    ensures
        r@ == seed_spec(challenge@, data@, nonce@),
{
    let mut seed: Vec<u8> = Vec::new();
    push_all(&mut seed, challenge.as_slice());
    push_all(&mut seed, data);
    push_all(&mut seed, nonce.as_slice());
    assert(seed@ =~= seed_spec(challenge@, data@, nonce@));
    seed
}

/// What solving the puzzle of a seed gives: `EquiXFailure` when no puzzle
/// can be built, `NoSolution` when the solver finds nothing, else a solution
/// of the first digest found and the nonce.
pub open spec fn solve_outcome(seed: Seq<u8>, nonce: Seq<u8>, r: Result<Solution, CrankXError>) -> bool {
    if !equix_builds(seed) {
        (r matches Err(CrankXError::EquiXFailure))
    } else if equix_solutions(seed).len() == 0 {
        (r matches Err(CrankXError::NoSolution))
    } else {
        r matches Ok(s) && s.spec_digest() == equix_solutions(seed)[0] && s.spec_nonce() == nonce
            && equix_accepts(seed, s.spec_digest())
    }
}

/// Makes a solution of the first candidate digest, in the order given.
pub fn pick_first(candidates: &Vec<[u8; 16]>, nonce: &[u8; 8]) -> (r: Result<Solution, CrankXError>)
    ensures
        candidates@.len() == 0 <==> (r matches Err(CrankXError::NoSolution)),
        candidates@.len() > 0 ==> (r matches Ok(s) && s.spec_digest() == candidates@[0]@ && s.spec_nonce() == nonce@),
{
    if candidates.len() == 0 {
        return Err(CrankXError::NoSolution);
    }
    Ok(Solution::new(candidates[0], *nonce))
}

/// Solves the puzzle of `challenge || data || nonce` and makes a solution of
/// the first digest found. Every solution returned passes `verify`.
pub fn solve(challenge: &[u8; 32], data: &[u8], nonce: &[u8; 8]) -> (r: Result<Solution, CrankXError>)
    ensures
        solve_outcome(seed_spec(challenge@, data@, nonce@), nonce@, r),
        r matches Ok(s) ==> solves(challenge@, data@, nonce@, s.spec_digest()),
{
    let seed = build_seed(challenge, data, nonce);
    match equix_solve(seed.as_slice()) {
        Ok(found) => {
            let r = pick_first(&found, nonce);
            proof {
                if found@.len() > 0 {
                    assert(equix_accepts(seed@, found@[0]@));
                }
            }
            r
        },
        Err(_) => Err(CrankXError::EquiXFailure),
    }
}

/// As `solve`, reusing the caller's solver memory; it gives what `solve`
/// gives on the same inputs.
pub fn solve_with_memory(
    mem: &mut equix::SolverMemory,
    challenge: &[u8; 32],
    data: &[u8],
    nonce: &[u8; 8],
) -> (r: Result<Solution, CrankXError>)
    ensures
        solve_outcome(seed_spec(challenge@, data@, nonce@), nonce@, r),
        r matches Ok(s) ==> solves(challenge@, data@, nonce@, s.spec_digest()),
{
    let seed = build_seed(challenge, data, nonce);
    match equix_solve_with_memory(mem, seed.as_slice()) {
        Ok(found) => {
            let r = pick_first(&found, nonce);
            proof {
                if found@.len() > 0 {
                    assert(equix_accepts(seed@, found@[0]@));
                }
            }
            r
        },
        Err(_) => Err(CrankXError::EquiXFailure),
    }
}

/// Checks that `digest` solves the puzzle of `challenge || data || nonce`,
/// without regard to difficulty. A digest that the puzzle rejects gives
/// `InvalidSolution`; `EquiXFailure` comes only where no puzzle can be built.
pub fn verify(challenge: &[u8; 32], data: &[u8], nonce: &[u8; 8], digest: &[u8; 16]) -> (r: Result<(), CrankXError>)
    ensures
        r is Ok <==> solves(challenge@, data@, nonce@, digest@),
        (r matches Err(CrankXError::EquiXFailure)) ==> !equix_builds(seed_spec(challenge@, data@, nonce@)),
        equix_builds(seed_spec(challenge@, data@, nonce@)) && !solves(challenge@, data@, nonce@, digest@)
            ==> (r matches Err(CrankXError::InvalidSolution)),
        r is Err ==> (r matches Err(CrankXError::EquiXFailure))
            || (r matches Err(CrankXError::InvalidSolution)),
{
    let seed = build_seed(challenge, data, nonce);
    equix_verify_bytes(seed.as_slice(), digest)
}

/// A digest that solving gives for `challenge || data || nonce` passes
/// `verify` on the same challenge, data and nonce.
pub proof fn lemma_solved_digest_verifies(
    challenge: Seq<u8>,
    data: Seq<u8>,
    nonce: Seq<u8>,
    r: Result<Solution, CrankXError>,
)
    requires
        solve_outcome(seed_spec(challenge, data, nonce), nonce, r),
        r is Ok,
    ensures
        solves(challenge, data, nonce, r->Ok_0.spec_digest()),
{
}

/// Two outcomes of solving one seed, as `solve` and `solve_with_memory`
/// give them, agree: the same error, or solutions with the same digest and
/// nonce, hence the same hash.
pub proof fn lemma_solvers_agree(
    seed: Seq<u8>,
    nonce: Seq<u8>,
    r1: Result<Solution, CrankXError>,
    r2: Result<Solution, CrankXError>,
)
    requires
        solve_outcome(seed, nonce, r1),
        solve_outcome(seed, nonce, r2),
    ensures
        r1 is Err ==> r1 == r2,
        r1 is Ok <==> r2 is Ok,
        r1 is Ok ==> r1->Ok_0.spec_digest() == r2->Ok_0.spec_digest()
            && r1->Ok_0.spec_nonce() == r2->Ok_0.spec_nonce()
            && r1->Ok_0.spec_hash() == r2->Ok_0.spec_hash(),
{
}

/// Seeds of one challenge and one nonce differ wherever the data segments
/// of equal length differ, so a digest accepted for one segment is checked
/// anew against another.
pub proof fn lemma_seed_binds_data(challenge: Seq<u8>, a: Seq<u8>, b: Seq<u8>, nonce: Seq<u8>)
    requires
        a.len() == b.len(),
        a != b,
    ensures
        seed_spec(challenge, a, nonce) != seed_spec(challenge, b, nonce),
{
    if a =~= b {
    } else {
        let k = choose|k: int| 0 <= k < a.len() && a[k] != b[k];
        assert(seed_spec(challenge, a, nonce)[challenge.len() + k] == a[k]);
        assert(seed_spec(challenge, b, nonce)[challenge.len() + k] == b[k]);
    }
}

/// Seeds of one challenge and one data segment differ wherever the nonces
/// of equal length differ.
pub proof fn lemma_seed_binds_nonce(challenge: Seq<u8>, data: Seq<u8>, m: Seq<u8>, n: Seq<u8>)
    requires
        m.len() == n.len(),
        m != n,
    ensures
        seed_spec(challenge, data, m) != seed_spec(challenge, data, n),
{
    if m =~= n {
    } else {
        let k = choose|k: int| 0 <= k < m.len() && m[k] != n[k];
        assert(seed_spec(challenge, data, m)[challenge.len() + data.len() + k] == m[k]);
        assert(seed_spec(challenge, data, n)[challenge.len() + data.len() + k] == n[k]);
    }
}

} // verus!
