//! Skills and their levels.

use vstd::prelude::*;

verus! {

/// A language that a developer can train.
#[derive(Debug, Clone, Copy, PartialEq, Eq, Hash, Structural)]
pub enum Skill {
    Python,
    JavaScript,
    Rust,
    Go,
    Java,
    Cpp,
    CSharp,
    Swift,
    Kotlin,
    TypeScript,
}

/// One row of a skill tree.
#[derive(Debug, Clone, Copy, PartialEq, Eq, Structural)]
pub struct SkillLevel {
    pub skill: Skill,
    pub level: u32,
}

/// The levels a developer has reached, one row for each skill that was ever
/// entered. A skill is looked up at its first row.
#[derive(Debug)]
pub struct SkillTree {
    pub skills: Vec<SkillLevel>,
}

/// The error of an upgrade beyond the highest level.
pub const SKILL_AT_MAXIMUM: &'static str = "skill level is at its maximum";

/// The skills of the rows, in order.
pub open spec fn skills_of(rows: Seq<SkillLevel>) -> Seq<Skill> {
    Seq::new(rows.len(), |i: int| rows[i].skill)
}

/// The first row of `rows` for `skill` is row `i`.
pub open spec fn is_skill_row(rows: Seq<SkillLevel>, skill: Skill, i: int) -> bool {
    &&& 0 <= i < rows.len()
    &&& rows[i].skill == skill
    &&& forall|j: int| 0 <= j < i ==> (#[trigger] rows[j]).skill != skill
}

/// The level on record for `skill`, if the skill was ever entered.
pub open spec fn level_of(rows: Seq<SkillLevel>, skill: Skill) -> Option<u32> {
    if exists|i: int| is_skill_row(rows, skill, i) {
        Some(rows[choose|i: int| is_skill_row(rows, skill, i)].level)
    } else {
        None
    }
}

/// The rows after `skill` was raised by one level: its row is raised where
/// there is one, and a row at level 1 is added where there is none.
pub open spec fn raised(rows: Seq<SkillLevel>, skill: Skill) -> Seq<SkillLevel> {
    if exists|i: int| is_skill_row(rows, skill, i) {
        let i = choose|i: int| is_skill_row(rows, skill, i);
        rows.update(i, SkillLevel { skill, level: (rows[i].level + 1) as u32 })
    } else {
        rows.push(SkillLevel { skill, level: 1 })
    }
}

/// A skill is found first at one row only.
pub proof fn lemma_skill_row_unique(rows: Seq<SkillLevel>, skill: Skill, i: int)
    requires
        is_skill_row(rows, skill, i),
    ensures
        (choose|k: int| is_skill_row(rows, skill, k)) == i,
        level_of(rows, skill) == Some(rows[i].level),
{
    let k = choose|k: int| is_skill_row(rows, skill, k);
    assert(is_skill_row(rows, skill, k));
}

/// A skill that heads no row is not on record.
pub proof fn lemma_skill_absent(rows: Seq<SkillLevel>, skill: Skill)
    requires
        forall|j: int| 0 <= j < rows.len() ==> (#[trigger] rows[j]).skill != skill,
    ensures
        !exists|i: int| is_skill_row(rows, skill, i),
        level_of(rows, skill) is None,
{
    if exists|i: int| is_skill_row(rows, skill, i) {
        let k = choose|k: int| is_skill_row(rows, skill, k);
        assert(is_skill_row(rows, skill, k));
    }
}

/// Raising a skill below the maximum leaves it one level higher, counting a
/// skill that was not on record as level 0.
pub proof fn lemma_raised_level(rows: Seq<SkillLevel>, skill: Skill)
    requires
        level_of(rows, skill) != Some(u32::MAX),
    ensures
        level_of(raised(rows, skill), skill) == Some(
            match level_of(rows, skill) {
                Some(level) => (level + 1) as u32,
                None => 1u32,
            },
        ),
{
    let after = raised(rows, skill);
    if exists|i: int| is_skill_row(rows, skill, i) {
        let i = choose|i: int| is_skill_row(rows, skill, i);
        lemma_skill_row_unique(after, skill, i);
    } else {
        let n = rows.len() as int;
        assert forall|j: int| 0 <= j < n implies (#[trigger] after[j]).skill != skill by {
            if rows[j].skill == skill {
                lemma_skill_present(rows, skill, j);
            }
        }
        lemma_skill_row_unique(after, skill, n);
    }
}

/// A skill that heads some row is found first at some row.
pub proof fn lemma_skill_present(rows: Seq<SkillLevel>, skill: Skill, i: int)
    requires
        0 <= i < rows.len(),
        rows[i].skill == skill,
    ensures
        exists|k: int| is_skill_row(rows, skill, k),
    decreases i,
{
    if forall|j: int| 0 <= j < i ==> (#[trigger] rows[j]).skill != skill {
        assert(is_skill_row(rows, skill, i));
    } else {
        let j = choose|j: int| 0 <= j < i && (#[trigger] rows[j]).skill == skill;
        lemma_skill_present(rows, skill, j);
    }
}

impl SkillTree {
    /// Well-formedness: no skill has two rows.
    pub open spec fn wf(&self) -> bool {
        skills_of(self.skills@).no_duplicates()
    }

    /// The tree of a new developer: Python, JavaScript and Rust at level 0.
    pub fn new() -> (r: Self)
        ensures
            r.skills@ == seq![
                SkillLevel { skill: Skill::Python, level: 0 },
                SkillLevel { skill: Skill::JavaScript, level: 0 },
                SkillLevel { skill: Skill::Rust, level: 0 },
            ],
            r.wf(),
    {
        let mut skills: Vec<SkillLevel> = Vec::new();
        skills.push(SkillLevel { skill: Skill::Python, level: 0 });
        skills.push(SkillLevel { skill: Skill::JavaScript, level: 0 });
        skills.push(SkillLevel { skill: Skill::Rust, level: 0 });
        assert(skills@ =~= seq![
            SkillLevel { skill: Skill::Python, level: 0 },
            SkillLevel { skill: Skill::JavaScript, level: 0 },
            SkillLevel { skill: Skill::Rust, level: 0 },
        ]);
        SkillTree { skills }
    }

    fn find(&self, skill: Skill) -> (r: Option<usize>)
        ensures
            match r {
                Some(i) => is_skill_row(self.skills@, skill, i as int),
                None => forall|j: int|
                    0 <= j < self.skills@.len() ==> (#[trigger] self.skills@[j]).skill != skill,
            },
    {
        let mut i: usize = 0;
        while i < self.skills.len()
            invariant
                i <= self.skills@.len(),
                forall|j: int| 0 <= j < i ==> (#[trigger] self.skills@[j]).skill != skill,
            decreases self.skills@.len() - i,
        {
            if self.skills[i].skill == skill {
                return Some(i);
            }
            i += 1;
        }
        None
    }

    /// The level on record for `skill`.
    pub fn level(&self, skill: Skill) -> (r: Option<u32>)
        ensures
            r == level_of(self.skills@, skill),
    {
        match self.find(skill) {
            Some(i) => {
                proof {
                    lemma_skill_row_unique(self.skills@, skill, i as int);
                }
                Some(self.skills[i].level)
            },
            None => {
                proof {
                    lemma_skill_absent(self.skills@, skill);
                }
                None
            },
        }
    }

    /// The rows to show: those of the skills above level 0, in order.
    pub fn trained(&self) -> (r: Vec<SkillLevel>)
        ensures
            r@ == self.skills@.filter(|row: SkillLevel| row.level > 0),
    {
        let ghost shown = |row: SkillLevel| row.level > 0;
        let mut out: Vec<SkillLevel> = Vec::new();
        let mut i: usize = 0;
        proof {
            reveal(Seq::filter);
        }
        while i < self.skills.len()
            invariant
                i <= self.skills@.len(),
                shown == |row: SkillLevel| row.level > 0,
                out@ == self.skills@.take(i as int).filter(shown),
            decreases self.skills@.len() - i,
        {
            let row = self.skills[i];
            if row.level > 0 {
                out.push(row);
            }
            proof {
                let grown = self.skills@.take(i + 1);
                assert(grown.drop_last() =~= self.skills@.take(i as int));
                reveal(Seq::filter);
            }
            i += 1;
        }
        assert(self.skills@.take(self.skills@.len() as int) =~= self.skills@);
        out
    }

    /// Raises `skill` by one level. A skill at the highest level that the
    /// counter can hold stays there, and the call fails.
    pub fn upgrade_skill(&mut self, skill: Skill) -> (r: Result<(), &'static str>)
        ensures
            level_of(old(self).skills@, skill) == Some(u32::MAX) ==> r == Err::<(), &'static str>(
                SKILL_AT_MAXIMUM,
            ) && final(self).skills@ == old(self).skills@,
            level_of(old(self).skills@, skill) != Some(u32::MAX) ==> r is Ok && final(self).skills@
                == raised(old(self).skills@, skill),
            old(self).wf() ==> final(self).wf(),
    {
        match self.find(skill) {
            Some(i) => {
                proof {
                    lemma_skill_row_unique(self.skills@, skill, i as int);
                }
                let level = self.skills[i].level;
                if level == u32::MAX {
                    return Err(SKILL_AT_MAXIMUM);
                }
                self.skills.set(i, SkillLevel { skill, level: level + 1 });
                assert(skills_of(self.skills@) =~= skills_of(old(self).skills@));
                Ok(())
            },
            None => {
                proof {
                    lemma_skill_absent(self.skills@, skill);
                }
                self.skills.push(SkillLevel { skill, level: 1 });
                proof {
                    let before = skills_of(old(self).skills@);
                    let after = skills_of(self.skills@);
                    assert forall|a: int, b: int|
                        old(self).wf() && 0 <= a < after.len() && 0 <= b < after.len() && a
                            != b implies after[a] != after[b] by {
                        if a < before.len() && b < before.len() {
                            assert(before[a] != before[b]);
                        } else if a < before.len() {
                            assert(old(self).skills@[a].skill != skill);
                        } else {
                            assert(old(self).skills@[b].skill != skill);
                        }
                    }
                }
                Ok(())
            },
        }
    }
}

} // verus!
