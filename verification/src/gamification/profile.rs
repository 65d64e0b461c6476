//! Developer profiles: experience, levels, and what a developer has earned.

use vstd::prelude::*;

use crate::gamification::badges::Badge;
use crate::gamification::guilds::names;
use crate::gamification::skills::{Skill, SkillLevel, SkillTree};
use crate::text::same_text;

verus! {

/// The experience needed for the first level-up.
pub const FIRST_THRESHOLD: u32 = 100;

/// The number of languages that earns the `Polyglot` badge.
pub const POLYGLOT_LANGUAGES: usize = 3;

/// A developer's standing.
#[derive(Debug)]
pub struct DeveloperProfile {
    pub developer_id: String,
    pub xp: u32,
    pub level: u32,
    pub xp_to_next_level: u32,
    pub skill_points: u32,
    pub skill_tree: SkillTree,
    pub badges: Vec<Badge>,
    pub solved_languages: Vec<String>,
    pub guild_id: Option<String>,
}

/// The counters of a profile that experience moves.
pub ghost struct Progress {
    pub xp: nat,
    pub level: nat,
    pub skill_points: nat,
    pub xp_to_next_level: nat,
}

/// The threshold that follows `threshold`: half as much again, rounded down,
/// and no more than the counter can hold.
pub open spec fn next_threshold(threshold: nat) -> nat {
    let grown = threshold + threshold / 2;
    if grown > u32::MAX {
        u32::MAX as nat
    } else {
        grown
    }
}

/// One level-up: the threshold is paid from the experience, level and skill
/// points rise by one, and the threshold grows.
pub open spec fn leveled_up(p: Progress) -> Progress {
    Progress {
        xp: (p.xp - p.xp_to_next_level) as nat,
        level: p.level + 1,
        skill_points: p.skill_points + 1,
        xp_to_next_level: next_threshold(p.xp_to_next_level),
    }
}

/// The counters once every level-up that the experience pays for is taken.
pub open spec fn settled(p: Progress) -> Progress
    decreases p.xp,
{
    if p.xp_to_next_level > 0 && p.xp >= p.xp_to_next_level {
        settled(leveled_up(p))
    } else {
        p
    }
}

/// `list` with `name` added at the end unless it is among them already.
pub open spec fn with_name(list: Seq<Seq<char>>, name: Seq<char>) -> Seq<Seq<char>> {
    if list.contains(name) {
        list
    } else {
        list.push(name)
    }
}

/// `badges` with `Polyglot` added at the end where `languages` languages
/// have been solved and the badge is not held yet.
pub open spec fn with_polyglot(badges: Seq<Badge>, languages: nat) -> Seq<Badge> {
    if languages >= POLYGLOT_LANGUAGES && !badges.contains(Badge::Polyglot) {
        badges.push(Badge::Polyglot)
    } else {
        badges
    }
}

/// `p` is the profile of a developer who has just been entered under `id`:
/// level 1 with nothing earned, the first threshold ahead, the three
/// starting skills at level 0, no badge, no language, no guild.
pub open spec fn is_new_profile(p: DeveloperProfile, id: Seq<char>) -> bool {
    &&& p.developer_id@ == id
    &&& p.xp == 0
    &&& p.level == 1
    &&& p.xp_to_next_level == FIRST_THRESHOLD
    &&& p.skill_points == 0
    &&& p.skill_tree.skills@ == seq![
        SkillLevel { skill: Skill::Python, level: 0 },
        SkillLevel { skill: Skill::JavaScript, level: 0 },
        SkillLevel { skill: Skill::Rust, level: 0 },
    ]
    &&& p.badges@.len() == 0
    &&& p.solved_languages@.len() == 0
    &&& p.guild_id is None
}

/// The counters after `amount` experience was credited, before any level-up.
pub open spec fn credited(p: Progress, amount: nat) -> Progress {
    Progress { xp: p.xp + amount, ..p }
}

/// Crediting `amount` stays within what the counters can hold: the threshold
/// is positive, so that level-ups come to an end, and neither the
/// experience nor, after the level-ups, the level or the skill points
/// exceed the largest number of their counter.
pub open spec fn xp_fits(p: Progress, amount: nat) -> bool {
    &&& p.xp_to_next_level > 0
    &&& p.xp + amount <= u32::MAX
    &&& settled(credited(p, amount)).level <= u32::MAX
    &&& settled(credited(p, amount)).skill_points <= u32::MAX
}

/// Adding a name that may be there already adds no name twice.
pub proof fn lemma_with_name_keeps_distinct(list: Seq<Seq<char>>, name: Seq<char>)
    requires
        list.no_duplicates(),
    ensures
        with_name(list, name).no_duplicates(),
{
}

/// Awarding `Polyglot` where it is not held yet adds no badge twice.
pub proof fn lemma_with_polyglot_keeps_distinct(badges: Seq<Badge>, languages: nat)
    requires
        badges.no_duplicates(),
    ensures
        with_polyglot(badges, languages).no_duplicates(),
{
}

/// Level-ups never lower the level or the skill points.
pub proof fn lemma_settled_grows(p: Progress)
    ensures
        settled(p).level >= p.level,
        settled(p).skill_points >= p.skill_points,
    decreases p.xp,
{
    if p.xp_to_next_level > 0 && p.xp >= p.xp_to_next_level {
        lemma_settled_grows(leveled_up(p));
    }
}

/// Once settled, the experience is below the threshold.
pub proof fn lemma_settled_is_below_threshold(p: Progress)
    requires
        p.xp_to_next_level > 0,
    ensures
        settled(p).xp < settled(p).xp_to_next_level,
    decreases p.xp,
{
    if p.xp >= p.xp_to_next_level {
        lemma_settled_is_below_threshold(leveled_up(p));
    }
}

impl DeveloperProfile {
    /// Well-formedness: no badge is held twice, no language is counted
    /// twice, and the skill tree is well-formed.
    pub open spec fn wf(&self) -> bool {
        &&& self.badges@.no_duplicates()
        &&& names(self.solved_languages@).no_duplicates()
        &&& self.skill_tree.wf()
    }

    /// The counters of the profile.
    pub open spec fn progress(&self) -> Progress {
        Progress {
            xp: self.xp as nat,
            level: self.level as nat,
            skill_points: self.skill_points as nat,
            xp_to_next_level: self.xp_to_next_level as nat,
        }
    }

    /// The profile of a new developer: level 1, nothing earned yet.
    pub fn new(developer_id: &str) -> (r: Self)
        ensures
            is_new_profile(r, developer_id@),
            r.wf(),
    {
        DeveloperProfile {
            developer_id: String::from_str(developer_id),
            xp: 0,
            level: 1,
            xp_to_next_level: FIRST_THRESHOLD,
            skill_points: 0,
            skill_tree: SkillTree::new(),
            badges: Vec::new(),
            solved_languages: Vec::new(),
            guild_id: None,
        }
    }

    /// Tells whether `amount` experience can be credited: see [`xp_fits`].
    pub fn can_add_xp(&self, amount: u32) -> (b: bool)
        ensures
            b == xp_fits(self.progress(), amount as nat),
    {
        if self.xp_to_next_level == 0 || amount > u32::MAX - self.xp {
            return false;
        }
        let ghost goal = settled(credited(self.progress(), amount as nat));
        let mut xp: u32 = self.xp + amount;
        let mut level: u32 = self.level;
        let mut skill_points: u32 = self.skill_points;
        let mut threshold: u32 = self.xp_to_next_level;
        while xp >= threshold
            invariant
                threshold > 0,
                self.xp_to_next_level > 0,
                self.xp + amount <= u32::MAX,
                goal == settled(credited(self.progress(), amount as nat)),
                settled(
                    Progress {
                        xp: xp as nat,
                        level: level as nat,
                        skill_points: skill_points as nat,
                        xp_to_next_level: threshold as nat,
                    },
                ) == goal,
            decreases xp,
        {
            let ghost now = Progress {
                xp: xp as nat,
                level: level as nat,
                skill_points: skill_points as nat,
                xp_to_next_level: threshold as nat,
            };
            proof {
                lemma_settled_grows(leveled_up(now));
            }
            if level == u32::MAX || skill_points == u32::MAX {
                return false;
            }
            xp -= threshold;
            level += 1;
            skill_points += 1;
            let half: u32 = threshold / 2;
            threshold = if threshold > u32::MAX - half {
                u32::MAX
            } else {
                threshold + half
            };
        }
        true
    }

    /// Credits `amount` experience for a challenge solved in `language`.
    ///
    /// The language joins the solved languages, the `Polyglot` badge is
    /// awarded where it is due, and every level-up that the experience now
    /// pays for is taken.
    pub fn add_xp(&mut self, amount: u32, language: &str)
        requires
            xp_fits(old(self).progress(), amount as nat),
        ensures
            final(self).progress() == settled(credited(old(self).progress(), amount as nat)),
            names(final(self).solved_languages@) == with_name(
                names(old(self).solved_languages@),
                language@,
            ),
            final(self).badges@ == with_polyglot(
                old(self).badges@,
                final(self).solved_languages@.len(),
            ),
            final(self).developer_id == old(self).developer_id,
            final(self).skill_tree == old(self).skill_tree,
            final(self).guild_id == old(self).guild_id,
            old(self).wf() ==> final(self).wf(),
    {
        proof {
            if old(self).wf() {
                lemma_with_name_keeps_distinct(names(old(self).solved_languages@), language@);
            }
        }
        self.xp += amount;
        self.note_language(language);
        self.check_for_new_badges();
        let ghost goal = settled(self.progress());
        let ghost entry = *self;
        while self.xp >= self.xp_to_next_level
            invariant
                self.xp_to_next_level > 0,
                settled(self.progress()) == goal,
                goal.level <= u32::MAX,
                goal.skill_points <= u32::MAX,
                self.solved_languages == entry.solved_languages,
                self.badges == entry.badges,
                self.developer_id == entry.developer_id,
                self.skill_tree == entry.skill_tree,
                self.guild_id == entry.guild_id,
            decreases self.xp,
        {
            proof {
                lemma_settled_grows(leveled_up(self.progress()));
            }
            self.level_up();
        }
    }

    fn level_up(&mut self)
        requires
            0 < old(self).xp_to_next_level <= old(self).xp,
            old(self).level < u32::MAX,
            old(self).skill_points < u32::MAX,
        ensures
            final(self).progress() == leveled_up(old(self).progress()),
            final(self).solved_languages == old(self).solved_languages,
            final(self).badges == old(self).badges,
            final(self).developer_id == old(self).developer_id,
            final(self).skill_tree == old(self).skill_tree,
            final(self).guild_id == old(self).guild_id,
    {
        self.xp -= self.xp_to_next_level;
        self.level += 1;
        self.skill_points += 1;
        let half: u32 = self.xp_to_next_level / 2;
        self.xp_to_next_level = if self.xp_to_next_level > u32::MAX - half {
            u32::MAX
        } else {
            self.xp_to_next_level + half
        };
    }

    fn note_language(&mut self, language: &str)
        ensures
            names(final(self).solved_languages@) == with_name(
                names(old(self).solved_languages@),
                language@,
            ),
            final(self).xp == old(self).xp,
            final(self).level == old(self).level,
            final(self).xp_to_next_level == old(self).xp_to_next_level,
            final(self).skill_points == old(self).skill_points,
            final(self).badges == old(self).badges,
            final(self).developer_id == old(self).developer_id,
            final(self).skill_tree == old(self).skill_tree,
            final(self).guild_id == old(self).guild_id,
    {
        let ghost known = names(self.solved_languages@);
        let mut i: usize = 0;
        while i < self.solved_languages.len()
            invariant
                i <= self.solved_languages@.len(),
                known == names(self.solved_languages@),
                *self == *old(self),
                forall|k: int| 0 <= k < i ==> known[k] != language@,
            decreases self.solved_languages@.len() - i,
        {
            if same_text(self.solved_languages[i].as_str(), language) {
                assert(known[i as int] == language@);
                return ;
            }
            i += 1;
        }
        self.solved_languages.push(String::from_str(language));
    }

    fn check_for_new_badges(&mut self)
        ensures
            final(self).badges@ == with_polyglot(
                old(self).badges@,
                old(self).solved_languages@.len(),
            ),
            final(self).xp == old(self).xp,
            final(self).level == old(self).level,
            final(self).xp_to_next_level == old(self).xp_to_next_level,
            final(self).skill_points == old(self).skill_points,
            final(self).solved_languages == old(self).solved_languages,
            final(self).developer_id == old(self).developer_id,
            final(self).skill_tree == old(self).skill_tree,
            final(self).guild_id == old(self).guild_id,
    {
        if self.solved_languages.len() >= POLYGLOT_LANGUAGES && !self.has_badge(Badge::Polyglot) {
            self.badges.push(Badge::Polyglot);
        }
    }

    /// Tells whether the developer holds `badge`.
    pub fn has_badge(&self, badge: Badge) -> (b: bool)
        ensures
            b == self.badges@.contains(badge),
    {
        let mut i: usize = 0;
        while i < self.badges.len()
            invariant
                i <= self.badges@.len(),
                forall|k: int| 0 <= k < i ==> self.badges@[k] != badge,
            decreases self.badges@.len() - i,
        {
            if self.badges[i] == badge {
                return true;
            }
            i += 1;
        }
        false
    }
}

} // verus!
