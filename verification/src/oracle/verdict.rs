//! The outcome of a verification.

use vstd::prelude::*;

verus! {

/// Why a submission was rejected.
#[derive(Debug, Clone, Copy, PartialEq, Eq, Structural)]
pub enum FailureKind {
    /// The challenge, or the sandbox, has nothing on file for the language.
    UnsupportedLanguage,
    /// The submitted code is empty or holds only whitespace.
    MalformedSubmission,
    /// The submission differs from the reference solution.
    ReferenceMismatch,
    /// A role of a composite challenge was left without a submission.
    MissingPart,
    /// The sandbox could not be set up or the submission did not build.
    BuildFailure,
    /// The test run ended with a non-zero status.
    RuntimeFailure,
    /// The test run did not end within the time allowed.
    TimeoutExceeded,
}

/// Accept or reject, with the reason for a rejection.
#[derive(Debug)]
pub struct VerificationResult {
    pub accepted: bool,
    pub failure: Option<FailureKind>,
    pub diagnostic: String,
}

/// The mathematical content of a [`VerificationResult`].
pub ghost struct VerdictView {
    pub accepted: bool,
    pub failure: Option<FailureKind>,
    pub diagnostic: Seq<char>,
}

/// The verdict that accepts.
pub open spec fn accepted() -> VerdictView {
    VerdictView { accepted: true, failure: None, diagnostic: Seq::empty() }
}

/// The verdict that rejects for `kind`, with `diagnostic` as explanation.
pub open spec fn rejected(kind: FailureKind, diagnostic: Seq<char>) -> VerdictView {
    VerdictView { accepted: false, failure: Some(kind), diagnostic }
}

impl View for VerificationResult {
    type V = VerdictView;

    open spec fn view(&self) -> VerdictView {
        VerdictView {
            accepted: self.accepted,
            failure: self.failure,
            diagnostic: self.diagnostic@,
        }
    }
}

impl Clone for VerificationResult {
    fn clone(&self) -> (r: Self)
        ensures
            r@ == self@,
    {
        VerificationResult {
            accepted: self.accepted,
            failure: self.failure,
            diagnostic: self.diagnostic.clone(),
        }
    }
}

impl VerificationResult {
    /// Well-formedness: a verdict carries a failure kind exactly when it
    /// rejects.
    pub open spec fn wf(&self) -> bool {
        self.accepted <==> self.failure is None
    }

    /// The verdict that accepts.
    pub fn accept() -> (r: Self)
        ensures
            r@ == accepted(),
            r.wf(),
    {
        VerificationResult { accepted: true, failure: None, diagnostic: String::new() }
    }

    /// The verdict that rejects for `kind`.
    pub fn reject(kind: FailureKind, diagnostic: &str) -> (r: Self)
        ensures
            r@ == rejected(kind, diagnostic@),
            r.wf(),
    {
        VerificationResult {
            accepted: false,
            failure: Some(kind),
            diagnostic: String::from_str(diagnostic),
        }
    }

    /// Tells whether the submission was accepted.
    pub fn is_accepted(&self) -> (b: bool)
        ensures
            b == self@.accepted,
    {
        self.accepted
    }
}

} // verus!
