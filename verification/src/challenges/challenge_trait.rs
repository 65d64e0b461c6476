//! What a challenge offers, and the shape of a submitted solution.

use vstd::prelude::*;

verus! {

/// A claimed solution to a challenge. It is not trusted until the oracle has
/// accepted it.
#[derive(Debug)]
pub struct ChallengeSolution {
    pub challenge_id: String,
    pub language: String,
    pub code: String,
    pub author: String,
}

/// The mathematical content of a [`ChallengeSolution`].
pub ghost struct SolutionView {
    pub challenge_id: Seq<char>,
    pub language: Seq<char>,
    pub code: Seq<char>,
    pub author: Seq<char>,
}

impl View for ChallengeSolution {
    type V = SolutionView;

    open spec fn view(&self) -> SolutionView {
        SolutionView {
            challenge_id: self.challenge_id@,
            language: self.language@,
            code: self.code@,
            author: self.author@,
        }
    }
}

impl Clone for ChallengeSolution {
    fn clone(&self) -> (r: Self)
        ensures
            r@ == self@,
    {
        ChallengeSolution {
            challenge_id: self.challenge_id.clone(),
            language: self.language.clone(),
            code: self.code.clone(),
            author: self.author.clone(),
        }
    }
}

/// The texts of a list of borrowed strings.
pub open spec fn texts(names: Seq<&str>) -> Seq<Seq<char>> {
    Seq::new(names.len(), |i: int| names[i]@)
}

/// The text of an optional string.
pub open spec fn text_of(s: Option<String>) -> Option<Seq<char>> {
    match s {
        Some(t) => Some(t@),
        None => None,
    }
}

/// A unit of work with per-language reference artifacts and a reward.
///
/// The `spec_` functions are the model of a challenge; each accessor returns
/// what the model says. A language is supported when a reference solution is
/// on file for it.
pub trait Challenge {
    spec fn spec_id(&self) -> Seq<char>;

    spec fn spec_title(&self) -> Seq<char>;

    spec fn spec_description(&self) -> Seq<char>;

    spec fn spec_languages(&self) -> Seq<Seq<char>>;

    spec fn spec_solution_for(&self, lang: Seq<char>) -> Option<Seq<char>>;

    spec fn spec_test_for(&self, lang: Seq<char>) -> Option<Seq<char>>;

    spec fn spec_reward(&self) -> u32;

    fn id(&self) -> (r: &str)
        ensures
            r@ == self.spec_id(),
    ;

    fn title(&self) -> (r: &str)
        ensures
            r@ == self.spec_title(),
    ;

    fn description(&self) -> (r: &str)
        ensures
            r@ == self.spec_description(),
    ;

    fn languages(&self) -> (r: Vec<&str>)
        ensures
            texts(r@) == self.spec_languages(),
    ;

    fn get_solution_for(&self, lang: &str) -> (r: Option<String>)
        ensures
            text_of(r) == self.spec_solution_for(lang@),
    ;

    fn get_test_for(&self, lang: &str) -> (r: Option<String>)
        ensures
            text_of(r) == self.spec_test_for(lang@),
    ;

    fn reward_xp(&self) -> (r: u32)
        ensures
            r == self.spec_reward(),
    ;
}

} // verus!
