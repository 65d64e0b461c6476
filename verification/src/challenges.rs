//! The challenge catalog and the oracle that judges submissions against it.

pub mod all_challenges;
pub mod challenge_trait;
pub mod language_table;
pub mod verification;
