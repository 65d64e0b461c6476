//! The verification oracle: it decides whether a submission is acceptable,
//! by itself where the challenge has only a reference solution, and by
//! handing the submission to the sandbox where it has a test harness.

use vstd::prelude::*;

use crate::challenges::all_challenges::{RaidPart, WebAppRaidChallenge};
use crate::challenges::challenge_trait::{text_of, Challenge, ChallengeSolution, SolutionView};
use crate::oracle::verdict::{accepted, rejected, FailureKind, VerdictView, VerificationResult};
use crate::text::{
    is_blank, is_blank_text, is_space, lemma_blank_iff_stripped_empty, remove_whitespace,
    same_text, strip_spaces,
};

verus! {

// The diagnostics of the oracle's own rejections.
pub const NO_REFERENCE_DIAGNOSTIC: &'static str =
    "the challenge has no reference solution for this language";

pub const BLANK_DIAGNOSTIC: &'static str = "the submission is empty";

pub const MISMATCH_DIAGNOSTIC: &'static str =
    "the submission differs from the reference solution";

pub const MISSING_PART_DIAGNOSTIC: &'static str = "no submission for this role";

pub const NO_PARTS_DIAGNOSTIC: &'static str = "the challenge has no parts";

/// Reference comparison. With no reference on file the language is
/// unsupported; a blank submission is malformed; any other is accepted
/// exactly when it equals the reference once whitespace is removed from both.
pub open spec fn reference_verdict(reference: Option<Seq<char>>, code: Seq<char>) -> VerdictView {
    match reference {
        None => rejected(FailureKind::UnsupportedLanguage, NO_REFERENCE_DIAGNOSTIC@),
        Some(expected) => if is_blank(code) {
            rejected(FailureKind::MalformedSubmission, BLANK_DIAGNOSTIC@)
        } else if strip_spaces(code) == strip_spaces(expected) {
            accepted()
        } else {
            rejected(FailureKind::ReferenceMismatch, MISMATCH_DIAGNOSTIC@)
        },
    }
}

/// What the sandbox is asked to run.
#[derive(Debug)]
pub struct SandboxJob {
    pub language: String,
    pub solution_code: String,
    pub test_code: String,
}

/// How far the oracle got by itself: either the verdict, or the job whose
/// outcome in the sandbox is the verdict.
#[derive(Debug)]
pub enum Verification {
    Settled { verdict: VerificationResult },
    Sandbox { job: SandboxJob },
}

/// The mathematical content of a [`Verification`].
pub ghost enum VerificationView {
    Settled { verdict: VerdictView },
    Sandbox { language: Seq<char>, solution_code: Seq<char>, test_code: Seq<char> },
}

impl View for Verification {
    type V = VerificationView;

    open spec fn view(&self) -> VerificationView {
        match self {
            Verification::Settled { verdict } => VerificationView::Settled { verdict: verdict@ },
            Verification::Sandbox { job } => VerificationView::Sandbox {
                language: job.language@,
                solution_code: job.solution_code@,
                test_code: job.test_code@,
            },
        }
    }
}

/// The oracle's strategy: a challenge with a test harness for the language of
/// the submission has the submission run in the sandbox; any other is judged
/// by reference comparison.
pub open spec fn judge<C: Challenge>(challenge: &C, solution: SolutionView) -> VerificationView {
    match challenge.spec_test_for(solution.language) {
        Some(test) => VerificationView::Sandbox {
            language: solution.language,
            solution_code: solution.code,
            test_code: test,
        },
        None => VerificationView::Settled {
            verdict: reference_verdict(
                challenge.spec_solution_for(solution.language),
                solution.code,
            ),
        },
    }
}

/// The verification oracle.
pub struct VerificationOracle;

impl VerificationOracle {
    /// Judges `code` against `reference` alone. See [`reference_verdict`].
    pub fn compare_with_reference(reference: &Option<String>, code: &str) -> (r: VerificationResult)
        ensures
            r@ == reference_verdict(text_of(*reference), code@),
            r.wf(),
    {
        match reference {
            None => VerificationResult::reject(
                FailureKind::UnsupportedLanguage,
                NO_REFERENCE_DIAGNOSTIC,
            ),
            Some(expected) => {
                if is_blank_text(code) {
                    VerificationResult::reject(FailureKind::MalformedSubmission, BLANK_DIAGNOSTIC)
                } else {
                    let given = remove_whitespace(code);
                    let wanted = remove_whitespace(expected.as_str());
                    if same_text(given.as_str(), wanted.as_str()) {
                        VerificationResult::accept()
                    } else {
                        VerificationResult::reject(
                            FailureKind::ReferenceMismatch,
                            MISMATCH_DIAGNOSTIC,
                        )
                    }
                }
            },
        }
    }

    /// Judges `solution` as a solution of `challenge`. See [`judge`].
    pub fn verify<C: Challenge>(challenge: &C, solution: &ChallengeSolution) -> (r: Verification)
        ensures
            r@ == judge(challenge, solution@),
            r matches Verification::Settled { verdict } ==> verdict.wf(),
    {
        match challenge.get_test_for(solution.language.as_str()) {
            Some(test_code) => Verification::Sandbox {
                job: SandboxJob {
                    language: solution.language.clone(),
                    solution_code: solution.code.clone(),
                    test_code,
                },
            },
            None => {
                let reference = challenge.get_solution_for(solution.language.as_str());
                Verification::Settled {
                    verdict: Self::compare_with_reference(&reference, solution.code.as_str()),
                }
            },
        }
    }
}

/// A language for which the challenge has neither a test harness nor a
/// reference solution is rejected as unsupported, whatever the code.
pub proof fn lemma_unsupported_language_is_rejected<C: Challenge>(
    challenge: &C,
    solution: SolutionView,
)
    requires
        challenge.spec_test_for(solution.language) is None,
        challenge.spec_solution_for(solution.language) is None,
    ensures
        judge(challenge, solution) == (VerificationView::Settled {
            verdict: rejected(FailureKind::UnsupportedLanguage, NO_REFERENCE_DIAGNOSTIC@),
        }),
{
}

/// Reference comparison looks at a submission only through what is left of it
/// once whitespace is removed: two submissions that agree there get the same
/// verdict.
pub proof fn lemma_verdict_ignores_whitespace(
    reference: Option<Seq<char>>,
    first: Seq<char>,
    second: Seq<char>,
)
    requires
        strip_spaces(first) == strip_spaces(second),
    ensures
        reference_verdict(reference, first) == reference_verdict(reference, second),
{
    lemma_blank_iff_stripped_empty(first);
    lemma_blank_iff_stripped_empty(second);
}

/// Whitespace put into a submission at any place changes nothing of what is
/// left once whitespace is removed.
pub proof fn lemma_inserted_whitespace_is_removed(
    before: Seq<char>,
    blank: Seq<char>,
    after: Seq<char>,
)
    requires
        is_blank(blank),
    ensures
        strip_spaces(before + blank + after) == strip_spaces(before + after),
{
    let keep = |c: char| !is_space(c);
    lemma_blank_iff_stripped_empty(blank);
    Seq::filter_distributes_over_add(before, blank, keep);
    Seq::filter_distributes_over_add(before + blank, after, keep);
    Seq::filter_distributes_over_add(before, after, keep);
}

/// A submission for one role of a composite challenge.
#[derive(Debug)]
pub struct PartSubmission {
    pub role: String,
    pub solution: ChallengeSolution,
}

/// The submission for `role` is the one at row `i`: the first under that
/// name.
pub open spec fn is_submission(submissions: Seq<PartSubmission>, role: Seq<char>, i: int) -> bool {
    &&& 0 <= i < submissions.len()
    &&& submissions[i].role@ == role
    &&& forall|j: int| 0 <= j < i ==> (#[trigger] submissions[j]).role@ != role
}

/// How one part of a composite is judged: by its own challenge, on the
/// submission for its role. A part without a submission is rejected.
pub open spec fn judge_part(part: RaidPart, submissions: Seq<PartSubmission>) -> VerificationView {
    if exists|i: int| is_submission(submissions, part.role@, i) {
        let i = choose|i: int| is_submission(submissions, part.role@, i);
        judge(&part.challenge, submissions[i].solution@)
    } else {
        VerificationView::Settled {
            verdict: rejected(FailureKind::MissingPart, MISSING_PART_DIAGNOSTIC@),
        }
    }
}

/// The verdict at row `i` is the first that rejects.
pub open spec fn is_first_rejection(verdicts: Seq<VerdictView>, i: int) -> bool {
    &&& 0 <= i < verdicts.len()
    &&& !verdicts[i].accepted
    &&& forall|j: int| 0 <= j < i ==> (#[trigger] verdicts[j]).accepted
}

/// Every verdict accepts.
pub open spec fn all_accepted(verdicts: Seq<VerdictView>) -> bool {
    forall|i: int| 0 <= i < verdicts.len() ==> (#[trigger] verdicts[i]).accepted
}

/// The verdict on a composite, from the verdicts on its parts: it accepts
/// only if there are parts and each was accepted, and is otherwise the first
/// rejection among them.
pub open spec fn raid_verdict(verdicts: Seq<VerdictView>) -> VerdictView {
    if verdicts.len() == 0 {
        rejected(FailureKind::MissingPart, NO_PARTS_DIAGNOSTIC@)
    } else if all_accepted(verdicts) {
        accepted()
    } else {
        verdicts[choose|i: int| is_first_rejection(verdicts, i)]
    }
}

/// The contents of a list of verdicts, in order.
pub open spec fn verdict_views(verdicts: Seq<VerificationResult>) -> Seq<VerdictView> {
    Seq::new(verdicts.len(), |i: int| verdicts[i]@)
}

impl VerificationOracle {
    /// Judges one part of a composite. See [`judge_part`].
    pub fn verify_part(part: &RaidPart, submissions: &Vec<PartSubmission>) -> (r: Verification)
        ensures
            r@ == judge_part(*part, submissions@),
    {
        let mut i: usize = 0;
        while i < submissions.len()
            invariant
                i <= submissions@.len(),
                forall|j: int| 0 <= j < i ==> (#[trigger] submissions@[j]).role@ != part.role@,
            decreases submissions@.len() - i,
        {
            if same_text(submissions[i].role.as_str(), part.role.as_str()) {
                proof {
                    assert(is_submission(submissions@, part.role@, i as int));
                    let k = choose|k: int| is_submission(submissions@, part.role@, k);
                    assert(is_submission(submissions@, part.role@, k));
                }
                return Self::verify(&part.challenge, &submissions[i].solution);
            }
            i += 1;
        }
        proof {
            if exists|k: int| is_submission(submissions@, part.role@, k) {
                let k = choose|k: int| is_submission(submissions@, part.role@, k);
                assert(is_submission(submissions@, part.role@, k));
            }
        }
        Verification::Settled {
            verdict: VerificationResult::reject(FailureKind::MissingPart, MISSING_PART_DIAGNOSTIC),
        }
    }

    /// Judges every part of `raid`, in the order of its parts.
    pub fn verify_raid(raid: &WebAppRaidChallenge, submissions: &Vec<PartSubmission>) -> (r: Vec<
        Verification,
    >)
        ensures
            r@.len() == raid.sub_challenges@.len(),
            forall|i: int|
                0 <= i < r@.len() ==> (#[trigger] r@[i])@ == judge_part(
                    raid.sub_challenges@[i],
                    submissions@,
                ),
    {
        let mut out: Vec<Verification> = Vec::new();
        let mut i: usize = 0;
        while i < raid.sub_challenges.len()
            invariant
                i <= raid.sub_challenges@.len(),
                out@.len() == i,
                forall|k: int|
                    0 <= k < i ==> (#[trigger] out@[k])@ == judge_part(
                        raid.sub_challenges@[k],
                        submissions@,
                    ),
            decreases raid.sub_challenges@.len() - i,
        {
            out.push(Self::verify_part(&raid.sub_challenges[i], submissions));
            i += 1;
        }
        out
    }

    /// The verdict on a composite, from the verdicts on its parts. See
    /// [`raid_verdict`].
    pub fn conclude_raid(verdicts: &Vec<VerificationResult>) -> (r: VerificationResult)
        ensures
            r@ == raid_verdict(verdict_views(verdicts@)),
    {
        let ghost views = verdict_views(verdicts@);
        if verdicts.len() == 0 {
            return VerificationResult::reject(FailureKind::MissingPart, NO_PARTS_DIAGNOSTIC);
        }
        let mut i: usize = 0;
        while i < verdicts.len()
            invariant
                i <= verdicts@.len(),
                views == verdict_views(verdicts@),
                forall|j: int| 0 <= j < i ==> (#[trigger] views[j]).accepted,
            decreases verdicts@.len() - i,
        {
            if !verdicts[i].accepted {
                proof {
                    assert(is_first_rejection(views, i as int));
                    let k = choose|k: int| is_first_rejection(views, k);
                    assert(is_first_rejection(views, k));
                }
                return verdicts[i].clone();
            }
            i += 1;
        }
        VerificationResult::accept()
    }
}

/// A composite is accepted exactly when it has parts and every part was
/// accepted: one rejected or missing part rejects the whole.
pub proof fn lemma_raid_accepts_iff_all_parts_do(verdicts: Seq<VerdictView>)
    ensures
        raid_verdict(verdicts).accepted <==> verdicts.len() > 0 && all_accepted(verdicts),
{
    if verdicts.len() > 0 && !all_accepted(verdicts) {
        let bad = choose|i: int| 0 <= i < verdicts.len() && !(#[trigger] verdicts[i]).accepted;
        lemma_some_rejection_is_first(verdicts, bad);
        let k = choose|k: int| is_first_rejection(verdicts, k);
        assert(is_first_rejection(verdicts, k));
    }
}

/// Where some verdict rejects, one of them is the first to do so.
pub proof fn lemma_some_rejection_is_first(verdicts: Seq<VerdictView>, i: int)
    requires
        0 <= i < verdicts.len(),
        !verdicts[i].accepted,
    ensures
        exists|k: int| is_first_rejection(verdicts, k),
    decreases i,
{
    if forall|j: int| 0 <= j < i ==> (#[trigger] verdicts[j]).accepted {
        assert(is_first_rejection(verdicts, i));
    } else {
        let j = choose|j: int| 0 <= j < i && !(#[trigger] verdicts[j]).accepted;
        lemma_some_rejection_is_first(verdicts, j);
    }
}

} // verus!
