//! Replay of solutions that the ledger holds.

pub mod executor;
