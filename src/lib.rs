//! Proof of access to a data segment through a memory-hard Equi-X puzzle
//! whose seed embeds the raw bytes `challenge || data || nonce`.

pub use equix;

pub mod canonical;
pub mod difficulty;
pub mod hashing;
pub mod puzzle;
pub mod solution;
pub mod mining;

pub use canonical::canonicalize;
pub use difficulty::difficulty;
pub use hashing::compute_hash;
pub use mining::{do_work, prove_work, DIFFICULTY};
pub use puzzle::{build_seed, solve, solve_with_memory, verify, CrankXError};
pub use solution::Solution;
