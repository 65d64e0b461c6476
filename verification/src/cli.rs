//! What the text menu reads: menu choices, the end of a pasted solution, and
//! block numbers.

use vstd::prelude::*;

use crate::text::{chars_of, same_text, trim, trimmed};

verus! {

/// An entry of the main menu.
#[derive(Debug, Clone, Copy, PartialEq, Eq, Structural)]
pub enum MenuChoice {
    ViewBlockchain,
    MineSolo,
    TackleRaid,
    ExecuteFromLedger,
    ManageGuild,
    ViewProfile,
    Exit,
    Invalid,
}

/// The entry that a trimmed line of input stands for.
pub open spec fn choice_of(word: Seq<char>) -> MenuChoice {
    if word == "1"@ {
        MenuChoice::ViewBlockchain
    } else if word == "2"@ {
        MenuChoice::MineSolo
    } else if word == "3"@ {
        MenuChoice::TackleRaid
    } else if word == "4"@ {
        MenuChoice::ExecuteFromLedger
    } else if word == "5"@ {
        MenuChoice::ManageGuild
    } else if word == "6"@ {
        MenuChoice::ViewProfile
    } else if word == "7"@ || word == "exit"@ {
        MenuChoice::Exit
    } else {
        MenuChoice::Invalid
    }
}

impl MenuChoice {
    /// Reads a menu choice from a line of input. Whitespace around the
    /// choice does not count.
    pub fn parse(line: &str) -> (r: MenuChoice)
        ensures
            r == choice_of(trimmed(line@)),
    {
        let word = trim(line);
        let w = word.as_str();
        if same_text(w, "1") {
            MenuChoice::ViewBlockchain
        } else if same_text(w, "2") {
            MenuChoice::MineSolo
        } else if same_text(w, "3") {
            MenuChoice::TackleRaid
        } else if same_text(w, "4") {
            MenuChoice::ExecuteFromLedger
        } else if same_text(w, "5") {
            MenuChoice::ManageGuild
        } else if same_text(w, "6") {
            MenuChoice::ViewProfile
        } else if same_text(w, "7") || same_text(w, "exit") {
            MenuChoice::Exit
        } else {
            MenuChoice::Invalid
        }
    }
}

/// The upper-case form of a text, as `str::to_uppercase` of the standard
/// library gives it.
pub uninterp spec fn uppercase(text: Seq<char>) -> Seq<char>;

/// `str::to_uppercase`: the result is the upper-case form of `s`.
#[verifier::external_body]
fn uppercase_of(s: &str) -> (r: String)
    ensures
        r@ == uppercase(s@),
{
    s.to_uppercase()
}

/// The word that ends a pasted solution.
pub const END_MARK: &'static str = "END";

/// Tells whether an upper-cased, trimmed line is the end mark.
pub fn is_end_word(word: &str) -> (b: bool)
    ensures
        b == (word@ == END_MARK@),
{
    same_text(word, END_MARK)
}

/// Tells whether `line` ends a pasted solution: it holds the end mark in any
/// case, and whitespace around it at most.
pub fn is_end_marker(line: &str) -> (b: bool)
    ensures
        b == (uppercase(trimmed(line@)) == END_MARK@),
{
    let word = trim(line);
    let upper = uppercase_of(word.as_str());
    is_end_word(upper.as_str())
}

/// The number that a run of decimal digits stands for.
pub open spec fn digits_value(s: Seq<char>) -> nat
    decreases s.len(),
{
    if s.len() == 0 {
        0
    } else {
        digits_value(s.drop_last()) * 10 + ((s.last() as u32 - 48) as nat)
    }
}

/// A decimal digit.
pub open spec fn is_digit(c: char) -> bool {
    48 <= c as u32 <= 57
}

/// Every character is a decimal digit.
pub open spec fn all_digits(s: Seq<char>) -> bool {
    forall|i: int| 0 <= i < s.len() ==> is_digit(#[trigger] s[i])
}

/// A numeral without its plus sign, if it has one.
pub open spec fn unsigned_part(s: Seq<char>) -> Seq<char> {
    if s.len() > 0 && s[0] == '+' {
        s.drop_first()
    } else {
        s
    }
}

/// The number that a numeral stands for: an optional plus sign and then at
/// least one decimal digit and nothing else, with a value that 64 bits hold.
pub open spec fn number_of(s: Seq<char>) -> Option<u64> {
    let body = unsigned_part(s);
    if body.len() > 0 && all_digits(body) && digits_value(body) <= u64::MAX {
        Some(digits_value(body) as u64)
    } else {
        None
    }
}

/// A numeral is worth at least as much as any of its prefixes.
pub proof fn lemma_digits_value_grows(s: Seq<char>, k: int)
    requires
        0 <= k <= s.len(),
        all_digits(s),
    ensures
        digits_value(s.take(k)) <= digits_value(s),
    decreases s.len() - k,
{
    if k == s.len() {
        assert(s.take(k) =~= s);
    } else {
        let front = s.drop_last();
        lemma_digits_value_grows(front, k);
        assert(front.take(k) =~= s.take(k));
    }
}

/// Reads a number from a numeral. See [`number_of`].
pub fn parse_number(text: &str) -> (r: Option<u64>)
    ensures
        r == number_of(text@),
{
    let chars = chars_of(text);
    let n = chars.len();
    let start: usize = if n > 0 && chars[0] == '+' {
        1
    } else {
        0
    };
    let ghost body = unsigned_part(text@);
    if start == n {
        return None;
    }
    let mut value: u64 = 0;
    let mut i: usize = start;
    while i < n
        invariant
            start <= i <= n,
            n == chars@.len(),
            body == chars@.skip(start as int),
            body == unsigned_part(text@),
            body.len() == n - start,
            all_digits(body.take(i - start)),
            value == digits_value(body.take(i - start)),
        decreases n - i,
    {
        let c = chars[i];
        let code: u32 = c as u32;
        let ghost seen = body.take(i - start);
        let ghost grown = body.take(i + 1 - start);
        proof {
            assert(grown.drop_last() =~= seen);
            assert(grown.last() == c);
        }
        if code < 48 || code > 57 {
            return None;
        }
        let digit: u64 = (code - 48) as u64;
        if value > (u64::MAX - digit) / 10 {
            proof {
                if all_digits(body) {
                    lemma_digits_value_grows(body, i + 1 - start);
                }
            }
            return None;
        }
        value = value * 10 + digit;
        assert(all_digits(grown));
        i += 1;
    }
    assert(body.take(n - start) =~= body);
    Some(value)
}

/// The block number that a line of input asks for: the number on the line,
/// whitespace around it not counted, and 0 where the line holds no number.
pub fn parse_block_index(line: &str) -> (r: u64)
    ensures
        r == match number_of(trimmed(line@)) {
            Some(n) => n,
            None => 0,
        },
{
    let word = trim(line);
    match parse_number(word.as_str()) {
        Some(n) => n,
        None => 0,
    }
}

} // verus!
