//! Guilds.

use vstd::prelude::*;

use crate::text::push_char;

verus! {

/// A team of developers. The founder is its first member.
#[derive(Debug)]
pub struct Guild {
    pub id: String,
    pub name: String,
    pub members: Vec<String>,
}

/// The texts of a list of strings.
pub open spec fn names(list: Seq<String>) -> Seq<Seq<char>> {
    Seq::new(list.len(), |i: int| list[i]@)
}

impl Guild {
    /// A guild with its founder as only member.
    pub fn new(id: String, name: String, founder_id: String) -> (r: Self)
        ensures
            r.id == id,
            r.name == name,
            r.members@ == seq![founder_id],
    {
        let mut members: Vec<String> = Vec::new();
        members.push(founder_id);
        Guild { id, name, members }
    }
}

/// The lower-case form of a text, as `str::to_lowercase` of the standard
/// library gives it.
pub uninterp spec fn lowercase(text: Seq<char>) -> Seq<char>;

/// `str::to_lowercase`: the result is the lower-case form of `s`.
#[verifier::external_body]
fn lowercase_of(s: &str) -> (r: String)
    ensures
        r@ == lowercase(s@),
{
    s.to_lowercase()
}

/// A text with a dash in place of every space character.
pub open spec fn dashed(text: Seq<char>) -> Seq<char> {
    Seq::new(text.len(), |i: int| if text[i] == ' ' { '-' } else { text[i] })
}

/// The identifier of the guild called `name`: the name in lower case, with
/// dashes for spaces.
pub open spec fn guild_id_of(name: Seq<char>) -> Seq<char> {
    dashed(lowercase(name))
}

/// Puts a dash in place of every space of `text`.
pub fn with_dashes(text: &str) -> (r: String)
    ensures
        r@ == dashed(text@),
{
    broadcast use vstd::string::group_string_axioms;

    let mut out = String::new();
    let chars = text.chars();
    for c in it: chars
        invariant
            it.seq() == text@,
            out@ == dashed(text@.take(it.index())),
    {
        if c == ' ' {
            push_char(&mut out, '-');
        } else {
            push_char(&mut out, c);
        }
    }
    out
}

/// The identifier of the guild called `name`.
pub fn guild_id_for(name: &str) -> (r: String)
    ensures
        r@ == guild_id_of(name@),
{
    let lower = lowercase_of(name);
    with_dashes(lower.as_str())
}

} // verus!
