use crankx::canonical::canonicalize;
use crankx::difficulty::difficulty;
use crankx::hashing::compute_hash;
use crankx::mining::{do_work, nonce_bytes, prove_work, DIFFICULTY};
use crankx::puzzle::{build_seed, pick_first, solve, solve_with_memory, verify, CrankXError};
use crankx::solution::Solution;
use sha3::Digest;

fn digest_of_words(words: [u16; 8]) -> [u8; 16] {
    let mut d = [0u8; 16];
    for (i, w) in words.iter().enumerate() {
        d[2 * i..2 * i + 2].copy_from_slice(&w.to_le_bytes());
    }
    d
}

fn keccak(parts: &[&[u8]]) -> [u8; 32] {
    let mut h = sha3::Keccak256::new();
    for p in parts {
        h.update(p);
    }
    h.finalize().into()
}

#[test]
fn canonicalize_sorts_little_endian_words() {
    let d = digest_of_words([0x0300, 5, 0xffff, 1, 0x0102, 7, 0, 0x0201]);
    let c = canonicalize(&d);
    assert_eq!(c, digest_of_words([0, 1, 5, 7, 0x0102, 0x0201, 0x0300, 0xffff]));
}

#[test]
fn canonicalize_keeps_sorted_digest() {
    let d = digest_of_words([1, 2, 3, 4, 5, 6, 7, 8]);
    assert_eq!(canonicalize(&d), d);
}

#[test]
fn permuted_digests_have_one_hash() {
    let a = digest_of_words([9, 8, 7, 6, 5, 4, 3, 2]);
    let b = digest_of_words([2, 4, 6, 8, 3, 5, 7, 9]);
    let nonce = [3u8; 8];
    assert_eq!(canonicalize(&a), canonicalize(&b));
    assert_eq!(compute_hash(&a, &nonce), compute_hash(&b, &nonce));
}

#[test]
fn compute_hash_is_keccak_of_canonical_digest_and_nonce() {
    let d = digest_of_words([9, 8, 7, 6, 5, 4, 3, 2]);
    let nonce = [1u8, 2, 3, 4, 5, 6, 7, 8];
    let c = canonicalize(&d);
    assert_eq!(compute_hash(&d, &nonce), keccak(&[&c, &nonce]));
    assert_ne!(compute_hash(&d, &nonce), keccak(&[&d, &nonce]));
}

#[test]
fn difficulty_of_zero_hash_is_256() {
    assert_eq!(difficulty([0u8; 32]), 256);
}

#[test]
fn difficulty_of_high_bit_is_zero() {
    let mut h = [0u8; 32];
    h[0] = 0x80;
    assert_eq!(difficulty(h), 0);
}

#[test]
fn difficulty_counts_prefix_bits() {
    let mut h = [0xffu8; 32];
    h[0] = 0;
    h[1] = 0;
    h[2] = 0x10;
    assert_eq!(difficulty(h), 19);
}

#[test]
fn difficulty_stops_at_first_nonzero_byte() {
    let mut h = [0u8; 32];
    h[0] = 0x01;
    assert_eq!(difficulty(h), 7);
}

#[test]
fn solution_bytes_round_trip() {
    let s = Solution::new([7u8; 16], [9u8; 8]);
    let b = s.to_bytes();
    assert_eq!(&b[..16], &[7u8; 16]);
    assert_eq!(&b[16..], &[9u8; 8]);
    let t = Solution::from_bytes(&b);
    assert_eq!(t.digest(), s.digest());
    assert_eq!(t.nonce(), s.nonce());
    assert_eq!(t.to_hash(), s.to_hash());
    assert_eq!(t.difficulty(), s.difficulty());
}

#[test]
fn solution_hash_is_recomputed() {
    let d = digest_of_words([4, 3, 2, 1, 8, 7, 6, 5]);
    let n = [1u8; 8];
    let s = Solution::new(d, n);
    assert_eq!(s.to_hash(), compute_hash(&d, &n));
    assert_eq!(s.difficulty(), difficulty(s.to_hash()));
}

#[test]
fn seed_is_plain_concatenation() {
    let seed = build_seed(&[1u8; 32], &[2u8, 3, 4], &[5u8; 8]);
    assert_eq!(seed.len(), 43);
    assert_eq!(&seed[..32], &[1u8; 32]);
    assert_eq!(&seed[32..35], &[2u8, 3, 4]);
    assert_eq!(&seed[35..], &[5u8; 8]);
}

#[test]
fn nonce_bytes_are_little_endian() {
    assert_eq!(nonce_bytes(0), [0u8; 8]);
    assert_eq!(nonce_bytes(0x0102), [2u8, 1, 0, 0, 0, 0, 0, 0]);
    assert_eq!(nonce_bytes(u64::MAX), [0xffu8; 8]);
}

#[test]
fn pick_first_of_none_is_no_solution() {
    assert!(matches!(pick_first(&Vec::new(), &[0u8; 8]), Err(CrankXError::NoSolution)));
}

#[test]
fn pick_first_takes_first_candidate() {
    let s = pick_first(&vec![[3u8; 16], [1u8; 16]], &[2u8; 8]).unwrap();
    assert_eq!(s.digest(), [3u8; 16]);
    assert_eq!(s.nonce(), [2u8; 8]);
}

#[test]
fn error_messages() {
    assert_eq!(CrankXError::EquiXFailure.message(), "EquiX build/solve failed");
    assert_eq!(CrankXError::NoSolution.message(), "No EquiX solution found");
    assert_eq!(CrankXError::InvalidSolution.message(), "Invalid EquiX solution");
}

fn first_solution(challenge: &[u8; 32], data: &[u8]) -> Solution {
    for n in 0u64..64 {
        if let Ok(s) = solve(challenge, data, &n.to_le_bytes()) {
            return s;
        }
    }
    panic!("no solution in 64 nonces");
}

#[test]
fn solved_digest_verifies() {
    let challenge = [0u8; 32];
    let data = [42u8; 128];
    let s = first_solution(&challenge, &data);
    assert!(verify(&challenge, &data, &s.nonce(), &s.digest()).is_ok());
    assert!(s.is_valid(&challenge, &data).is_ok());
}

#[test]
fn solution_does_not_replay_on_other_data() {
    let challenge = [0u8; 32];
    let data = [42u8; 128];
    let s = first_solution(&challenge, &data);
    let mut other = data;
    other[77] = 43;
    assert!(matches!(verify(&challenge, &other, &s.nonce(), &s.digest()), Err(CrankXError::InvalidSolution)));
}

#[test]
fn garbage_digest_is_rejected() {
    let challenge = [1u8; 32];
    let data = [0u8; 16];
    assert!(matches!(verify(&challenge, &data, &[0u8; 8], &[0xabu8; 16]), Err(CrankXError::InvalidSolution)));
}

#[test]
fn solve_with_memory_matches_solve() {
    let challenge = [5u8; 32];
    let data = [6u8; 64];
    let mut mem = equix::SolverMemory::new();
    for n in 0u64..8 {
        let nonce = n.to_le_bytes();
        match (solve(&challenge, &data, &nonce), solve_with_memory(&mut mem, &challenge, &data, &nonce)) {
            (Ok(a), Ok(b)) => {
                assert_eq!(a.digest(), b.digest());
                assert_eq!(a.to_hash(), b.to_hash());
            }
            (Err(a), Err(b)) => assert_eq!(a, b),
            _ => panic!("solvers disagree"),
        }
    }
}

#[test]
fn distinct_nonces_give_distinct_hashes() {
    let challenge = [0u8; 32];
    let data = [42u8; 128];
    let mut hashes = Vec::new();
    for n in 0u64..16 {
        if let Ok(s) = solve(&challenge, &data, &n.to_le_bytes()) {
            hashes.push(s.to_hash());
        }
    }
    for i in 0..hashes.len() {
        for j in i + 1..hashes.len() {
            assert_ne!(hashes[i], hashes[j]);
        }
    }
}

#[test]
fn mining_reaches_target_and_is_accepted() {
    let challenge = [0u8; 32];
    let data = [42u8; 128];
    let s = do_work(challenge, &data).unwrap();
    assert!(s.difficulty() >= DIFFICULTY);
    assert!(s.is_valid(&challenge, &data).is_ok());
    assert!(prove_work(&challenge, &data, &s).is_ok());
}

#[test]
fn easy_solution_is_rejected_by_difficulty() {
    let challenge = [0u8; 32];
    let data = [42u8; 128];
    for n in 0u64..256 {
        if let Ok(s) = solve(&challenge, &data, &n.to_le_bytes()) {
            if s.difficulty() < DIFFICULTY {
                assert!(matches!(prove_work(&challenge, &data, &s), Err(CrankXError::InvalidSolution)));
                return;
            }
        }
    }
    panic!("every solution was hard enough");
}

#[test]
fn proof_on_other_data_is_invalid() {
    let challenge = [0u8; 32];
    let data = [42u8; 128];
    let s = do_work(challenge, &data).unwrap();
    let mut other = data;
    other[0] = 0;
    assert!(matches!(prove_work(&challenge, &other, &s), Err(CrankXError::InvalidSolution)));
}

#[test]
fn mining_returns_least_accepted_nonce() {
    let challenge = [0u8; 32];
    let data = [42u8; 128];
    let s = do_work(challenge, &data).unwrap();
    let found = u64::from_le_bytes(s.nonce());
    for k in 0..found {
        if let Ok(t) = solve(&challenge, &data, &k.to_le_bytes()) {
            assert!(t.difficulty() < DIFFICULTY);
        }
    }
    let again = solve(&challenge, &data, &s.nonce()).unwrap();
    assert_eq!(again.digest(), s.digest());
    assert_eq!(again.to_hash(), s.to_hash());
}
