//! The ledger: reward transactions, blocks, and the hash-linked chain.

pub mod blockchain;
pub mod canonical;
pub mod transaction;
