//! Verdicts, and the sandbox in which submissions are run against a harness.

pub mod docker_verifier;
pub mod verdict;
