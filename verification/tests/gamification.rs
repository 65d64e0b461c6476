use devchain::gamification::badges::Badge;
use devchain::gamification::guilds::{guild_id_for, with_dashes, Guild};
use devchain::gamification::profile::DeveloperProfile;
use devchain::gamification::skills::{Skill, SkillLevel, SkillTree, SKILL_AT_MAXIMUM};

#[test]
fn new_profile_starts_at_level_one() {
    let profile = DeveloperProfile::new("dev_polyglot_001");
    assert_eq!(profile.developer_id, "dev_polyglot_001");
    assert_eq!(profile.xp, 0);
    assert_eq!(profile.level, 1);
    assert_eq!(profile.xp_to_next_level, 100);
    assert_eq!(profile.skill_points, 0);
    assert_eq!(profile.skill_tree.skills.len(), 3);
    assert!(profile.badges.is_empty());
    assert!(profile.solved_languages.is_empty());
    assert_eq!(profile.guild_id, None);
}

#[test]
fn xp_below_the_threshold_only_accumulates() {
    let mut profile = DeveloperProfile::new("d");
    assert!(profile.can_add_xp(99));
    profile.add_xp(99, "Python");
    assert_eq!((profile.xp, profile.level, profile.skill_points, profile.xp_to_next_level), (99, 1, 0, 100));
    assert_eq!(profile.solved_languages, vec!["Python".to_string()]);
}

#[test]
fn solo_reward_gives_one_level() {
    let mut profile = DeveloperProfile::new("d");
    profile.add_xp(150, "Python");
    assert_eq!((profile.xp, profile.level, profile.skill_points, profile.xp_to_next_level), (50, 2, 1, 150));
}

#[test]
fn raid_reward_gives_three_levels() {
    let mut profile = DeveloperProfile::new("d");
    profile.add_xp(500, "Raid");
    // 500 - 100 - 150 - 225 = 25, thresholds 100, 150, 225, 337
    assert_eq!((profile.xp, profile.level, profile.skill_points, profile.xp_to_next_level), (25, 4, 3, 337));
}

#[test]
fn threshold_grows_by_half_rounded_down() {
    let mut profile = DeveloperProfile::new("d");
    profile.xp_to_next_level = 337;
    profile.add_xp(337, "Go");
    assert_eq!(profile.xp_to_next_level, 505);
    assert_eq!(profile.xp, 0);
    profile.xp_to_next_level = 1;
    profile.add_xp(5, "Go");
    assert_eq!((profile.xp, profile.level, profile.xp_to_next_level), (0, 7, 1));
}

#[test]
fn threshold_stops_at_the_largest_number() {
    let mut profile = DeveloperProfile::new("d");
    profile.xp_to_next_level = 3_000_000_000;
    profile.xp = 3_000_000_000;
    assert!(profile.can_add_xp(0));
    profile.add_xp(0, "Go");
    assert_eq!((profile.xp, profile.level, profile.xp_to_next_level), (0, 2, u32::MAX));
}

#[test]
fn xp_that_does_not_fit_is_told_apart() {
    let mut profile = DeveloperProfile::new("d");
    profile.xp = 50;
    assert!(!profile.can_add_xp(u32::MAX));
    assert!(profile.can_add_xp(u32::MAX - 50));
    profile.xp_to_next_level = 0;
    assert!(!profile.can_add_xp(1));
    let mut profile = DeveloperProfile::new("d");
    profile.level = u32::MAX;
    assert!(profile.can_add_xp(99));
    assert!(!profile.can_add_xp(100));
    let mut profile = DeveloperProfile::new("d");
    profile.skill_points = u32::MAX;
    assert!(!profile.can_add_xp(100));
}

#[test]
fn polyglot_is_awarded_once_at_three_languages() {
    let mut profile = DeveloperProfile::new("d");
    profile.add_xp(1, "Python");
    profile.add_xp(1, "Python");
    profile.add_xp(1, "Go");
    assert_eq!(profile.solved_languages, vec!["Python".to_string(), "Go".to_string()]);
    assert!(!profile.has_badge(Badge::Polyglot));
    profile.add_xp(1, "Rust");
    assert!(profile.has_badge(Badge::Polyglot));
    profile.add_xp(1, "Java");
    assert_eq!(profile.badges, vec![Badge::Polyglot]);
    assert!(!profile.has_badge(Badge::FirstCommit));
}

#[test]
fn new_skill_tree_has_three_skills_at_level_zero() {
    let tree = SkillTree::new();
    assert_eq!(
        tree.skills,
        vec![
            SkillLevel { skill: Skill::Python, level: 0 },
            SkillLevel { skill: Skill::JavaScript, level: 0 },
            SkillLevel { skill: Skill::Rust, level: 0 },
        ]
    );
    assert_eq!(tree.level(Skill::Rust), Some(0));
    assert_eq!(tree.level(Skill::Go), None);
    assert!(tree.trained().is_empty());
}

#[test]
fn upgrade_raises_a_known_skill_and_enters_a_new_one() {
    let mut tree = SkillTree::new();
    assert_eq!(tree.upgrade_skill(Skill::Rust), Ok(()));
    assert_eq!(tree.upgrade_skill(Skill::Rust), Ok(()));
    assert_eq!(tree.upgrade_skill(Skill::Kotlin), Ok(()));
    assert_eq!(tree.level(Skill::Rust), Some(2));
    assert_eq!(tree.level(Skill::Kotlin), Some(1));
    assert_eq!(tree.level(Skill::Python), Some(0));
    assert_eq!(tree.skills.len(), 4);
    assert_eq!(
        tree.trained(),
        vec![
            SkillLevel { skill: Skill::Rust, level: 2 },
            SkillLevel { skill: Skill::Kotlin, level: 1 },
        ]
    );
}

#[test]
fn upgrade_fails_at_the_largest_level() {
    let mut tree = SkillTree::new();
    tree.skills[0].level = u32::MAX;
    assert_eq!(tree.upgrade_skill(Skill::Python), Err(SKILL_AT_MAXIMUM));
    assert_eq!(tree.level(Skill::Python), Some(u32::MAX));
    assert_eq!(tree.skills.len(), 3);
}

#[test]
fn guild_starts_with_its_founder() {
    let guild = Guild::new("rust-aces".to_string(), "Rust Aces".to_string(), "alice".to_string());
    assert_eq!(guild.id, "rust-aces");
    assert_eq!(guild.name, "Rust Aces");
    assert_eq!(guild.members, vec!["alice".to_string()]);
}

#[test]
fn guild_id_is_lower_case_with_dashes() {
    assert_eq!(guild_id_for("Rust Aces"), "rust-aces");
    assert_eq!(guild_id_for("The  Späte ÖLF"), "the--späte-ölf");
    assert_eq!(guild_id_for(""), "");
    assert_eq!(with_dashes("a b\tc d"), "a-b\tc-d");
}

#[test]
fn upgrades_never_give_a_skill_two_rows() {
    let mut tree = SkillTree::new();
    for skill in [Skill::Go, Skill::Rust, Skill::Go, Skill::Swift, Skill::Python, Skill::Go] {
        assert_eq!(tree.upgrade_skill(skill), Ok(()));
    }
    let skills: Vec<Skill> = tree.skills.iter().map(|row| row.skill).collect();
    assert_eq!(
        skills,
        vec![Skill::Python, Skill::JavaScript, Skill::Rust, Skill::Go, Skill::Swift]
    );
    assert_eq!(tree.level(Skill::Go), Some(3));
}
