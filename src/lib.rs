//! Tamper-evident blocks of transactions, bound together by SHA-256 hashes,
//! with Merkle inclusion proofs for single transactions.

pub mod hashing;
pub mod merkle;
pub mod merkle_proof;
pub mod transaction;
pub mod utils;
pub mod block;
pub mod blockchain;
