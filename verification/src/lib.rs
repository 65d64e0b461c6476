//! A ledger of verified solutions to coding challenges.
//!
//! A submission is judged by the verification oracle, either against the
//! challenge's reference solution or in a sandbox, and only an accepted
//! submission is sealed into a block of the hash-linked chain.

pub mod app_state;
pub mod challenges;
pub mod cli;
pub mod core_types;
pub mod gamification;
pub mod oracle;
pub mod text;
pub mod vm;
