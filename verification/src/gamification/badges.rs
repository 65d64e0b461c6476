//! Badges.

use vstd::prelude::*;

verus! {

/// An achievement that a developer can hold once.
#[derive(Debug, Clone, Copy, PartialEq, Eq, Hash, Structural)]
pub enum Badge {
    FirstCommit,
    Polyglot,
    GuildMember,
    RaidLeader,
}

} // verus!
