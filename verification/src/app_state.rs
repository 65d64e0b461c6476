//! The state of a node: the ledger, the developers and their guilds, and the
//! steps that lead from a submission to a block.

use vstd::prelude::*;

use crate::challenges::all_challenges::{
    holds_language, WebAppRaidChallenge, BACKEND_ID, FRONTEND_ID, JAVASCRIPT, PYTHON,
    ROLE_BACKEND, ROLE_FRONTEND,
};
use crate::challenges::challenge_trait::{Challenge, ChallengeSolution, SolutionView};
use crate::challenges::verification::PartSubmission;
use crate::core_types::blockchain::{
    block_views, chain_valid, genesis_block, next_block, Block, Blockchain, LedgerError,
};
use crate::core_types::transaction::Transaction;
use crate::gamification::guilds::{guild_id_for, guild_id_of, names, Guild};
use crate::gamification::profile::{
    credited, is_new_profile, settled, with_name, with_polyglot, xp_fits, DeveloperProfile,
};
use crate::oracle::verdict::VerificationResult;
use crate::text::same_text;

verus! {

/// Everything a node keeps: the ledger, one profile for each developer, and
/// the guilds. A developer is looked up at the first profile under the
/// developer's name, a guild at the first under its identifier.
#[derive(Debug)]
pub struct AppState {
    pub blockchain: Blockchain,
    pub profiles: Vec<DeveloperProfile>,
    pub guilds: Vec<Guild>,
}

/// Why a step was refused.
#[derive(Debug, Clone, Copy, PartialEq, Eq, Structural)]
pub enum StepError {
    /// No profile is on record for the developer.
    UnknownDeveloper,
    /// The challenge is not offered in the language.
    UnsupportedLanguage,
    /// The developer is in no guild.
    NoGuild,
    /// The developer is in a guild already.
    AlreadyInGuild,
    /// The reward would exceed what the developer's counters can hold.
    ExperienceOverflow,
    /// The chain is not valid: nothing is mined on top of it.
    ChainIntegrityError,
}

/// The language under which a raid is entered in the ledger.
pub const RAID_LANGUAGE: &'static str = "WebApp (JS/Python)";

/// The line before the frontend code in the proof of a raid.
pub const FRONTEND_MARK: &'static str = "--FRONTEND--\n";

/// The line before the backend code in the proof of a raid.
pub const BACKEND_MARK: &'static str = "\n--BACKEND--\n";

/// The language in which experience for a raid is counted.
pub const RAID_LABEL: &'static str = "Raid";

/// What a developer enters for a raid: one submission for each part, the
/// proof that stands for the whole, and who is rewarded.
#[derive(Debug)]
pub struct RaidEntry {
    pub submissions: Vec<PartSubmission>,
    pub solution: ChallengeSolution,
    pub beneficiary: String,
}

/// The entry of developer `dev` of guild `guild` for the raid `raid_id`: the
/// frontend code as JavaScript under the role `frontend`, the backend code
/// as Python under the role `backend`, and as proof both codes under their
/// marks, in the name of the guild.
pub open spec fn raid_entry_of(
    entry: RaidEntry,
    dev: Seq<char>,
    guild: Seq<char>,
    raid_id: Seq<char>,
    frontend_code: Seq<char>,
    backend_code: Seq<char>,
) -> bool {
    &&& entry.submissions@.len() == 2
    &&& entry.submissions@[0].role@ == ROLE_FRONTEND@
    &&& entry.submissions@[0].solution@ == (SolutionView {
        challenge_id: FRONTEND_ID@,
        language: JAVASCRIPT@,
        code: frontend_code,
        author: dev,
    })
    &&& entry.submissions@[1].role@ == ROLE_BACKEND@
    &&& entry.submissions@[1].solution@ == (SolutionView {
        challenge_id: BACKEND_ID@,
        language: PYTHON@,
        code: backend_code,
        author: dev,
    })
    &&& entry.solution@ == (SolutionView {
        challenge_id: raid_id,
        language: RAID_LANGUAGE@,
        code: FRONTEND_MARK@ + frontend_code + BACKEND_MARK@ + backend_code,
        author: guild,
    })
    &&& entry.beneficiary@ == guild
}

/// Why an accepted submission of `dev_id` cannot be settled, if it cannot.
pub open spec fn refusal(state: AppState, dev_id: Seq<char>, reward: u32) -> Option<StepError> {
    if !has_profile(state.profiles@, dev_id) {
        Some(StepError::UnknownDeveloper)
    } else if !xp_fits(
        state.profiles@[profile_row(state.profiles@, dev_id)].progress(),
        reward as nat,
    ) {
        Some(StepError::ExperienceOverflow)
    } else if !chain_valid(state.blockchain@.chain) {
        Some(StepError::ChainIntegrityError)
    } else {
        None
    }
}

/// `after` is `before` with `reward` experience credited under `label`.
pub open spec fn rewarded(
    before: DeveloperProfile,
    after: DeveloperProfile,
    reward: u32,
    label: Seq<char>,
) -> bool {
    &&& after.progress() == settled(credited(before.progress(), reward as nat))
    &&& names(after.solved_languages@) == with_name(names(before.solved_languages@), label)
    &&& after.badges@ == with_polyglot(before.badges@, after.solved_languages@.len())
    &&& after.developer_id == before.developer_id
    &&& after.skill_tree == before.skill_tree
    &&& after.guild_id == before.guild_id
}

/// `after` is `before` with the guild `id` entered, and nothing else changed.
pub open spec fn joined(before: DeveloperProfile, after: DeveloperProfile, id: Seq<char>) -> bool {
    &&& after.guild_id is Some
    &&& after.guild_id->0@ == id
    &&& after.developer_id == before.developer_id
    &&& after.xp == before.xp
    &&& after.level == before.level
    &&& after.xp_to_next_level == before.xp_to_next_level
    &&& after.skill_points == before.skill_points
    &&& after.skill_tree == before.skill_tree
    &&& after.badges == before.badges
    &&& after.solved_languages == before.solved_languages
}

/// `guild` is the guild `id`, called `name`, with `founder` as only member.
pub open spec fn founded(guild: Guild, id: Seq<char>, name: Seq<char>, founder: Seq<char>) -> bool {
    &&& guild.id@ == id
    &&& guild.name@ == name
    &&& names(guild.members@) == seq![founder]
}

/// `after` is `before` with row `g` written: in place of the first guild
/// `id` where `before` has one, and else at the end. Every other row stays.
pub open spec fn placed(before: Seq<Guild>, after: Seq<Guild>, id: Seq<char>, g: int) -> bool {
    &&& 0 <= g <= before.len()
    &&& after.len() == if g < before.len() {
        before.len()
    } else {
        before.len() + 1
    }
    &&& g < before.len() ==> is_guild_row(before, id, g)
    &&& forall|j: int| 0 <= j < before.len() && j != g ==> after[j] == before[j]
    &&& forall|j: int| 0 <= j < g ==> (#[trigger] before[j]).id@ != id
}

/// The names of the developers on record, in order.
pub open spec fn profile_ids(profiles: Seq<DeveloperProfile>) -> Seq<Seq<char>> {
    Seq::new(profiles.len(), |i: int| profiles[i].developer_id@)
}

/// The identifiers of the guilds, in order.
pub open spec fn guild_ids(guilds: Seq<Guild>) -> Seq<Seq<char>> {
    Seq::new(guilds.len(), |i: int| guilds[i].id@)
}

/// Well-formedness of the records of a node: no developer has two profiles,
/// no guild identifier stands twice, and every profile is well-formed.
#[verifier::opaque]
pub open spec fn records_wf(profiles: Seq<DeveloperProfile>, guilds: Seq<Guild>) -> bool {
    &&& profile_ids(profiles).no_duplicates()
    &&& guild_ids(guilds).no_duplicates()
    &&& forall|i: int| 0 <= i < profiles.len() ==> (#[trigger] profiles[i]).wf()
}

/// The profile of `id` is the one at row `i`: the first under that name.
pub open spec fn is_profile_row(profiles: Seq<DeveloperProfile>, id: Seq<char>, i: int) -> bool {
    &&& 0 <= i < profiles.len()
    &&& profiles[i].developer_id@ == id
    &&& forall|j: int| 0 <= j < i ==> (#[trigger] profiles[j]).developer_id@ != id
}

/// A profile is on record for `id`.
pub open spec fn has_profile(profiles: Seq<DeveloperProfile>, id: Seq<char>) -> bool {
    exists|i: int| is_profile_row(profiles, id, i)
}

/// The row of the profile of `id`. Meaningful where `has_profile` holds.
pub open spec fn profile_row(profiles: Seq<DeveloperProfile>, id: Seq<char>) -> int {
    choose|i: int| is_profile_row(profiles, id, i)
}

/// The guild `id` is the one at row `i`: the first under that identifier.
pub open spec fn is_guild_row(guilds: Seq<Guild>, id: Seq<char>, i: int) -> bool {
    &&& 0 <= i < guilds.len()
    &&& guilds[i].id@ == id
    &&& forall|j: int| 0 <= j < i ==> (#[trigger] guilds[j]).id@ != id
}

impl AppState {
    /// Well-formedness: see [`records_wf`].
    pub open spec fn wf(&self) -> bool {
        records_wf(self.profiles@, self.guilds@)
    }

    /// A fresh node: a new ledger, no developers, no guilds.
    pub fn new() -> (r: Self)
        ensures
            r.wf(),
            r.blockchain@.chain == seq![genesis_block(r.blockchain@.chain[0].timestamp)],
            chain_valid(r.blockchain@.chain),
            r.blockchain.pending_transactions@.len() == 0,
            r.profiles@.len() == 0,
            r.guilds@.len() == 0,
    {
        proof {
            reveal(records_wf);
        }
        AppState { blockchain: Blockchain::new(), profiles: Vec::new(), guilds: Vec::new() }
    }

    /// Takes over a state read from storage. It is handed out only if its
    /// chain is valid.
    pub fn restore(
        chain: Vec<Block>,
        pending_transactions: Vec<Transaction>,
        profiles: Vec<DeveloperProfile>,
        guilds: Vec<Guild>,
    ) -> (r: Result<Self, LedgerError>)
        ensures
            chain_valid(block_views(chain@)) ==> r is Ok,
            !chain_valid(block_views(chain@)) ==> r == Err::<Self, LedgerError>(
                LedgerError::ChainIntegrityError,
            ),
            r matches Ok(state) ==> state.blockchain.chain == chain
                && state.blockchain.pending_transactions == pending_transactions && state.profiles
                == profiles && state.guilds == guilds,
            r matches Ok(state) ==> (state.wf() <==> records_wf(profiles@, guilds@)),
    {
        match Blockchain::restore(chain, pending_transactions) {
            Ok(blockchain) => Ok(AppState { blockchain, profiles, guilds }),
            Err(e) => Err(e),
        }
    }

    /// The row of the profile of `dev_id`.
    pub fn find_profile(&self, dev_id: &str) -> (r: Option<usize>)
        ensures
            has_profile(self.profiles@, dev_id@) ==> r == Some(
                profile_row(self.profiles@, dev_id@) as usize,
            ),
            !has_profile(self.profiles@, dev_id@) ==> r is None,
            r matches Some(i) ==> is_profile_row(self.profiles@, dev_id@, i as int),
    {
        let mut i: usize = 0;
        while i < self.profiles.len()
            invariant
                i <= self.profiles@.len(),
                forall|j: int| 0 <= j < i ==> (#[trigger] self.profiles@[j]).developer_id@ != dev_id@,
            decreases self.profiles@.len() - i,
        {
            if same_text(self.profiles[i].developer_id.as_str(), dev_id) {
                proof {
                    lemma_profile_row_unique(self.profiles@, dev_id@, i as int);
                }
                return Some(i);
            }
            i += 1;
        }
        proof {
            if has_profile(self.profiles@, dev_id@) {
                assert(is_profile_row(
                    self.profiles@,
                    dev_id@,
                    profile_row(self.profiles@, dev_id@),
                ));
            }
        }
        None
    }

    /// Makes sure that `dev_id` has a profile: a new one is added at the end
    /// where there is none.
    pub fn ensure_profile(&mut self, dev_id: &str)
        ensures
            has_profile(old(self).profiles@, dev_id@) ==> *final(self) == *old(self),
            !has_profile(old(self).profiles@, dev_id@) ==> {
                &&& final(self).profiles@.len() == old(self).profiles@.len() + 1
                &&& final(self).profiles@.take(old(self).profiles@.len() as int) == old(
                    self,
                ).profiles@
                &&& is_profile_row(final(self).profiles@, dev_id@, old(self).profiles@.len() as int)
                &&& is_new_profile(final(self).profiles@.last(), dev_id@)
                &&& final(self).blockchain == old(self).blockchain
                &&& final(self).guilds == old(self).guilds
            },
            old(self).wf() ==> final(self).wf(),
    {
        match self.find_profile(dev_id) {
            Some(_) => {},
            None => {
                self.profiles.push(DeveloperProfile::new(dev_id));
                assert(self.profiles@.take(old(self).profiles@.len() as int) =~= old(
                    self,
                ).profiles@);
                assert forall|j: int| 0 <= j < old(self).profiles@.len() implies (
                #[trigger] self.profiles@[j]).developer_id@ != dev_id@ by {
                    if old(self).profiles@[j].developer_id@ == dev_id@ {
                        lemma_profile_present(old(self).profiles@, dev_id@, j);
                    }
                }
                proof {
                    reveal(records_wf);
                    let before = profile_ids(old(self).profiles@);
                    let after = profile_ids(self.profiles@);
                    assert forall|a: int, b: int|
                        old(self).wf() && 0 <= a < after.len() && 0 <= b < after.len() && a
                            != b implies after[a] != after[b] by {
                        if a < before.len() && b < before.len() {
                            assert(before[a] != before[b]);
                        } else if a < before.len() {
                            assert(self.profiles@[a].developer_id@ != dev_id@);
                        } else {
                            assert(self.profiles@[b].developer_id@ != dev_id@);
                        }
                    }
                    assert forall|j: int|
                        old(self).wf() && 0 <= j < self.profiles@.len() implies (
                    #[trigger] self.profiles@[j]).wf() by {
                        if j < old(self).profiles@.len() {
                            assert(old(self).profiles@[j].wf());
                        }
                    }
                }
            },
        }
    }

    /// Makes the submission of `dev_id` for `challenge` from the language
    /// chosen and the code entered. The challenge must offer the language,
    /// and the developer must be on record.
    pub fn prepare_solo<C: Challenge>(
        &self,
        dev_id: &str,
        challenge: &C,
        language: &str,
        code: &str,
    ) -> (r: Result<ChallengeSolution, StepError>)
        ensures
            !challenge.spec_languages().contains(language@) ==> r == Err::<
                ChallengeSolution,
                StepError,
            >(StepError::UnsupportedLanguage),
            challenge.spec_languages().contains(language@) && !has_profile(self.profiles@, dev_id@)
                ==> r == Err::<ChallengeSolution, StepError>(StepError::UnknownDeveloper),
            challenge.spec_languages().contains(language@) && has_profile(self.profiles@, dev_id@)
                ==> r is Ok && r->Ok_0@ == (SolutionView {
                challenge_id: challenge.spec_id(),
                language: language@,
                code: code@,
                author: dev_id@,
            }),
    {
        let offered = challenge.languages();
        if !holds_language(&offered, language) {
            return Err(StepError::UnsupportedLanguage);
        }
        match self.find_profile(dev_id) {
            None => Err(StepError::UnknownDeveloper),
            Some(i) => Ok(
                ChallengeSolution {
                    challenge_id: String::from_str(challenge.id()),
                    language: String::from_str(language),
                    code: String::from_str(code),
                    author: self.profiles[i].developer_id.clone(),
                },
            ),
        }
    }

    /// Makes the submissions of `dev_id` for the two parts of `raid`, and the
    /// proof that is mined if both are accepted. The developer must be on
    /// record and in a guild; the guild is author and beneficiary.
    pub fn prepare_raid(
        &self,
        dev_id: &str,
        raid: &WebAppRaidChallenge,
        frontend_code: &str,
        backend_code: &str,
    ) -> (r: Result<RaidEntry, StepError>)
        ensures
            !has_profile(self.profiles@, dev_id@) ==> r == Err::<RaidEntry, StepError>(
                StepError::UnknownDeveloper,
            ),
            has_profile(self.profiles@, dev_id@) && self.profiles@[profile_row(
                self.profiles@,
                dev_id@,
            )].guild_id is None ==> r == Err::<RaidEntry, StepError>(StepError::NoGuild),
            has_profile(self.profiles@, dev_id@) && self.profiles@[profile_row(
                self.profiles@,
                dev_id@,
            )].guild_id is Some ==> r is Ok && raid_entry_of(
                r->Ok_0,
                dev_id@,
                self.profiles@[profile_row(self.profiles@, dev_id@)].guild_id->0@,
                raid.spec_id(),
                frontend_code@,
                backend_code@,
            ),
    {
        let i = match self.find_profile(dev_id) {
            None => { return Err(StepError::UnknownDeveloper); },
            Some(i) => i,
        };
        let guild = match &self.profiles[i].guild_id {
            None => { return Err(StepError::NoGuild); },
            Some(guild) => guild,
        };
        let mut submissions: Vec<PartSubmission> = Vec::new();
        submissions.push(
            PartSubmission {
                role: String::from_str(ROLE_FRONTEND),
                solution: ChallengeSolution {
                    challenge_id: String::from_str(FRONTEND_ID),
                    language: String::from_str(JAVASCRIPT),
                    code: String::from_str(frontend_code),
                    author: self.profiles[i].developer_id.clone(),
                },
            },
        );
        submissions.push(
            PartSubmission {
                role: String::from_str(ROLE_BACKEND),
                solution: ChallengeSolution {
                    challenge_id: String::from_str(BACKEND_ID),
                    language: String::from_str(PYTHON),
                    code: String::from_str(backend_code),
                    author: self.profiles[i].developer_id.clone(),
                },
            },
        );
        let mut combined = String::from_str(FRONTEND_MARK);
        combined.append(frontend_code);
        combined.append(BACKEND_MARK);
        combined.append(backend_code);
        let proof_of_raid = ChallengeSolution {
            challenge_id: String::from_str(raid.id()),
            language: String::from_str(RAID_LANGUAGE),
            code: combined,
            author: guild.clone(),
        };
        Ok(RaidEntry { submissions, solution: proof_of_raid, beneficiary: guild.clone() })
    }

    /// Settles a judged submission of `dev_id`: an accepted one is mined for
    /// `beneficiary`, and `reward` experience is credited to the developer
    /// under `label`.
    ///
    /// A rejecting verdict changes nothing and yields `Ok(None)`. An
    /// accepting one is refused, and nothing changes, where the developer is
    /// unknown, where the reward does not fit the developer's counters, or
    /// where the chain is not valid. Otherwise the block is mined, the
    /// experience is credited, and the index and the hash of the new block
    /// are returned for the broadcast.
    pub fn settle(
        &mut self,
        dev_id: &str,
        reward: u32,
        label: &str,
        solution: ChallengeSolution,
        beneficiary: &str,
        verdict: &VerificationResult,
    ) -> (r: Result<Option<(u64, String)>, StepError>)
        ensures
            !verdict@.accepted ==> r == Ok::<Option<(u64, String)>, StepError>(None) && *final(self)
                == *old(self),
            verdict@.accepted ==> match refusal(*old(self), dev_id@, reward) {
                Some(e) => r == Err::<Option<(u64, String)>, StepError>(e) && *final(self) == *old(
                    self,
                ),
                None => {
                    let i = profile_row(old(self).profiles@, dev_id@);
                    &&& r matches Ok(Some(notice))
                    &&& final(self).blockchain.chain@.len() == old(self).blockchain.chain@.len() + 1
                    &&& final(self).blockchain.chain@.take(
                        old(self).blockchain.chain@.len() as int,
                    ) == old(self).blockchain.chain@
                    &&& final(self).blockchain@.chain.last() == next_block(
                        old(self).blockchain@.chain,
                        old(self).blockchain@.pending,
                        solution@,
                        beneficiary@,
                        final(self).blockchain@.chain.last().timestamp,
                    )
                    &&& final(self).blockchain.pending_transactions@.len() == 0
                    &&& chain_valid(final(self).blockchain@.chain)
                    &&& notice.0 == final(self).blockchain@.chain.last().index
                    &&& notice.1@ == final(self).blockchain@.chain.last().hash
                    &&& final(self).guilds == old(self).guilds
                    &&& final(self).profiles@.len() == old(self).profiles@.len()
                    &&& forall|j: int|
                        0 <= j < old(self).profiles@.len() && j != i ==> final(self).profiles@[j]
                            == old(self).profiles@[j]
                    &&& rewarded(old(self).profiles@[i], final(self).profiles@[i], reward, label@)
                },
            },
            old(self).wf() ==> final(self).wf(),
    {
        if !verdict.accepted {
            return Ok(None);
        }
        let i = match self.find_profile(dev_id) {
            None => { return Err(StepError::UnknownDeveloper); },
            Some(i) => i,
        };
        if !self.profiles[i].can_add_xp(reward) {
            return Err(StepError::ExperienceOverflow);
        }
        match self.blockchain.commit(verdict, solution, beneficiary) {
            Err(_) => Err(StepError::ChainIntegrityError),
            Ok(None) => Ok(None),
            Ok(Some(notice)) => {
                self.credit(i, reward, label);
                Ok(Some(notice))
            },
        }
    }

    /// Credits `reward` experience under `label` to the profile at row `i`.
    fn credit(&mut self, i: usize, reward: u32, label: &str)
        requires
            i < old(self).profiles@.len(),
            xp_fits(old(self).profiles@[i as int].progress(), reward as nat),
        ensures
            final(self).blockchain == old(self).blockchain,
            final(self).guilds == old(self).guilds,
            final(self).profiles@.len() == old(self).profiles@.len(),
            forall|j: int|
                0 <= j < old(self).profiles@.len() && j != i ==> final(self).profiles@[j] == old(
                    self,
                ).profiles@[j],
            rewarded(
                old(self).profiles@[i as int],
                final(self).profiles@[i as int],
                reward,
                label@,
            ),
            records_wf(old(self).profiles@, old(self).guilds@) ==> records_wf(
                final(self).profiles@,
                final(self).guilds@,
            ),
    {
        self.profiles[i].add_xp(reward, label);
        proof {
            reveal(records_wf);
            lemma_rows_keep_wf(old(self).profiles@, self.profiles@, i as int);
        }
    }

    /// Founds the guild called `guild_name` with `dev_id` as its founder.
    ///
    /// The developer must be on record and in no guild. The guild takes the
    /// place of a guild with the same identifier, or is added at the end
    /// where there is none; the developer's profile then names it.
    pub fn found_guild(&mut self, dev_id: &str, guild_name: &str) -> (r: Result<String, StepError>)
        ensures
            !has_profile(old(self).profiles@, dev_id@) ==> r == Err::<String, StepError>(
                StepError::UnknownDeveloper,
            ) && *final(self) == *old(self),
            has_profile(old(self).profiles@, dev_id@) && old(self).profiles@[profile_row(
                old(self).profiles@,
                dev_id@,
            )].guild_id is Some ==> r == Err::<String, StepError>(StepError::AlreadyInGuild)
                && *final(self) == *old(self),
            has_profile(old(self).profiles@, dev_id@) && old(self).profiles@[profile_row(
                old(self).profiles@,
                dev_id@,
            )].guild_id is None ==> {
                let i = profile_row(old(self).profiles@, dev_id@);
                let id = guild_id_of(guild_name@);
                &&& r is Ok
                &&& r->Ok_0@ == id
                &&& final(self).blockchain == old(self).blockchain
                &&& final(self).profiles@.len() == old(self).profiles@.len()
                &&& forall|j: int|
                    0 <= j < old(self).profiles@.len() && j != i ==> final(self).profiles@[j]
                        == old(self).profiles@[j]
                &&& joined(old(self).profiles@[i], final(self).profiles@[i], id)
                &&& exists|g: int|
                    #![trigger final(self).guilds@[g]]
                    {
                        &&& is_guild_row(final(self).guilds@, id, g)
                        &&& founded(final(self).guilds@[g], id, guild_name@, dev_id@)
                        &&& placed(old(self).guilds@, final(self).guilds@, id, g)
                    }
            },
            old(self).wf() ==> final(self).wf(),
    {
        let i = match self.find_profile(dev_id) {
            None => { return Err(StepError::UnknownDeveloper); },
            Some(i) => i,
        };
        if self.profiles[i].guild_id.is_some() {
            return Err(StepError::AlreadyInGuild);
        }
        let guild_id = guild_id_for(guild_name);
        let new_guild = Guild::new(
            guild_id.clone(),
            String::from_str(guild_name),
            self.profiles[i].developer_id.clone(),
        );
        assert(names(new_guild.members@) =~= seq![dev_id@]);
        let mut g: usize = 0;
        while g < self.guilds.len() && !same_text(self.guilds[g].id.as_str(), guild_id.as_str())
            invariant
                g <= self.guilds@.len(),
                forall|j: int| 0 <= j < g ==> (#[trigger] self.guilds@[j]).id@ != guild_id@,
            decreases self.guilds@.len() - g,
        {
            g += 1;
        }
        if g < self.guilds.len() {
            self.guilds.set(g, new_guild);
        } else {
            self.guilds.push(new_guild);
        }
        self.profiles[i].guild_id = Some(guild_id.clone());
        assert(is_guild_row(self.guilds@, guild_id@, g as int));
        proof {
            reveal(records_wf);
            lemma_rows_keep_wf(old(self).profiles@, self.profiles@, i as int);
            let before = guild_ids(old(self).guilds@);
            let after = guild_ids(self.guilds@);
            if g < before.len() {
                assert(after =~= before);
            } else {
                assert forall|a: int, b: int|
                    before.no_duplicates() && 0 <= a < after.len() && 0 <= b < after.len() && a
                        != b implies after[a] != after[b] by {
                    if a < before.len() && b < before.len() {
                        assert(before[a] != before[b]);
                    } else if a < before.len() {
                        assert(old(self).guilds@[a].id@ != guild_id@);
                    } else {
                        assert(old(self).guilds@[b].id@ != guild_id@);
                    }
                }
            }
        }
        Ok(guild_id)
    }
}

/// Profiles stay distinct and well-formed where one row is replaced by a
/// well-formed profile of the same developer and every other row stays.
pub proof fn lemma_rows_keep_wf(
    before: Seq<DeveloperProfile>,
    after: Seq<DeveloperProfile>,
    i: int,
)
    requires
        0 <= i < before.len(),
        after.len() == before.len(),
        forall|j: int| 0 <= j < before.len() && j != i ==> after[j] == before[j],
        after[i].developer_id == before[i].developer_id,
        before[i].wf() ==> after[i].wf(),
    ensures
        profile_ids(before).no_duplicates() ==> profile_ids(after).no_duplicates(),
        (forall|j: int| 0 <= j < before.len() ==> (#[trigger] before[j]).wf()) ==> (forall|j: int|
            0 <= j < after.len() ==> (#[trigger] after[j]).wf()),
{
    assert(profile_ids(after) =~= profile_ids(before));
    if forall|j: int| 0 <= j < before.len() ==> (#[trigger] before[j]).wf() {
        assert forall|j: int| 0 <= j < after.len() implies (#[trigger] after[j]).wf() by {
            assert(before[j].wf());
        }
    }
}

/// A developer is found first at one row only.
pub proof fn lemma_profile_row_unique(profiles: Seq<DeveloperProfile>, id: Seq<char>, i: int)
    requires
        is_profile_row(profiles, id, i),
    ensures
        has_profile(profiles, id),
        profile_row(profiles, id) == i,
{
    assert(is_profile_row(profiles, id, profile_row(profiles, id)));
}

/// A developer who heads some row is found first at some row.
pub proof fn lemma_profile_present(profiles: Seq<DeveloperProfile>, id: Seq<char>, i: int)
    requires
        0 <= i < profiles.len(),
        profiles[i].developer_id@ == id,
    ensures
        has_profile(profiles, id),
    decreases i,
{
    if forall|j: int| 0 <= j < i ==> (#[trigger] profiles[j]).developer_id@ != id {
        assert(is_profile_row(profiles, id, i));
    } else {
        let j = choose|j: int| 0 <= j < i && (#[trigger] profiles[j]).developer_id@ == id;
        lemma_profile_present(profiles, id, j);
    }
}

} // verus!
