//! Progress of developers: experience, levels, skills, badges and guilds.

pub mod badges;
pub mod guilds;
pub mod profile;
pub mod skills;
