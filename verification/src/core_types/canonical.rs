//! The canonical text of a block and its digest.
//!
//! A block is written as compact JSON with its fields in declaration order
//! and its `hash` field blank; the block's hash is the SHA-256 digest of that
//! text in lower-case hexadecimal.

use sha2::{Digest, Sha256};
use vstd::prelude::*;
use vstd::utf8::encode_utf8;

use crate::challenges::challenge_trait::{ChallengeSolution, SolutionView};
use crate::core_types::transaction::{Transaction, TransactionView};
use crate::text::{
    decimal, digit_char, hex, is_lower_hex, lemma_hex_shape, push_decimal, to_hex,
};

verus! {

/// How one character stands inside a JSON string literal: a quote and a
/// backslash behind a backslash, the five control characters that have a
/// letter as that letter behind a backslash, every other character below
/// U+0020 as `\u00` and its two lower-case hexadecimal digits, and any
/// other character as itself.
pub open spec fn json_escape(c: char) -> Seq<char> {
    let v = c as u32;
    if v == 0x22 {
        seq!['\\', '"']
    } else if v == 0x5C {
        seq!['\\', '\\']
    } else if v == 0x08 {
        seq!['\\', 'b']
    } else if v == 0x09 {
        seq!['\\', 't']
    } else if v == 0x0A {
        seq!['\\', 'n']
    } else if v == 0x0C {
        seq!['\\', 'f']
    } else if v == 0x0D {
        seq!['\\', 'r']
    } else if v < 0x20 {
        seq!['\\', 'u', '0', '0', digit_char(v as int / 16), digit_char(v as int % 16)]
    } else {
        seq![c]
    }
}

/// A text with each of its characters as it stands inside a JSON string
/// literal.
pub open spec fn json_escaped(text: Seq<char>) -> Seq<char>
    decreases text.len(),
{
    if text.len() == 0 {
        Seq::empty()
    } else {
        json_escaped(text.drop_last()) + json_escape(text.last())
    }
}

/// The JSON string literal of a text: the escaped text in double quotes.
pub open spec fn json_string(text: Seq<char>) -> Seq<char> {
    seq!['"'] + json_escaped(text) + seq!['"']
}

/// A character that stands for itself inside a JSON string literal.
pub open spec fn is_plain(c: char) -> bool {
    c as u32 >= 0x20 && c as u32 != 0x22 && c as u32 != 0x5C
}

/// A text of plain characters is written as it is, in double quotes.
pub proof fn lemma_plain_text_is_quoted(text: Seq<char>)
    requires
        forall|i: int| 0 <= i < text.len() ==> is_plain(#[trigger] text[i]),
    ensures
        json_escaped(text) == text,
        json_string(text) == seq!['"'] + text + seq!['"'],
    decreases text.len(),
{
    if text.len() > 0 {
        let front = text.drop_last();
        assert(forall|i: int| 0 <= i < front.len() ==> front[i] == text[i]);
        lemma_plain_text_is_quoted(front);
        assert(is_plain(text[text.len() - 1]));
        assert(front + seq![text.last()] =~= text);
    }
}

/// The digest text of a block: 64 lower-case hexadecimal digits.
pub open spec fn is_digest_shaped(s: Seq<char>) -> bool {
    &&& s.len() == 64
    &&& forall|i: int| 0 <= i < s.len() ==> is_lower_hex(#[trigger] s[i])
}

/// The SHA-256 digest of a message.
pub uninterp spec fn sha256(message: Seq<u8>) -> Seq<u8>;

/// `serde_json::to_string` on a string slice: the result is the JSON string
/// literal of the text, escaped as `json_escape` says. Writing a string
/// slice into memory has no failing path in `serde_json`, so the result is
/// always there.
#[verifier::external_body]
fn quote_json(s: &str) -> (r: String)
    ensures
        r@ == json_string(s@),
{
    serde_json::to_string(s).expect("a string slice serializes")
}

/// `Sha256::digest` of the `sha2` crate: the result is the SHA-256 digest of
/// `data`, which is 32 bytes long.
#[verifier::external_body]
fn sha256_of(data: &[u8]) -> (r: Vec<u8>)
    ensures
        r@ == sha256(data@),
        r@.len() == 32,
{
    Sha256::digest(data).to_vec()
}

/// The canonical text of a submission.
pub open spec fn solution_json(p: SolutionView) -> Seq<char> {
    "{\"challenge_id\":"@ + json_string(p.challenge_id) + ",\"language\":"@ + json_string(
        p.language,
    ) + ",\"code\":"@ + json_string(p.code) + ",\"author\":"@ + json_string(p.author) + "}"@
}

/// The canonical text of a transaction. The amount is written with one
/// fractional digit.
pub open spec fn transaction_json(t: TransactionView) -> Seq<char> {
    "{\"sender\":"@ + json_string(t.sender) + ",\"recipient\":"@ + json_string(t.recipient)
        + ",\"amount\":"@ + decimal(t.amount) + ".0}"@
}

/// The canonical texts of a list of transactions, separated by commas.
pub open spec fn transactions_json(ts: Seq<TransactionView>) -> Seq<char>
    decreases ts.len(),
{
    if ts.len() == 0 {
        Seq::empty()
    } else if ts.len() == 1 {
        transaction_json(ts[0])
    } else {
        transactions_json(ts.drop_last()) + ","@ + transaction_json(ts.last())
    }
}

/// The digest text of a serialized block: SHA-256 over its UTF-8 bytes, in
/// lower-case hexadecimal.
pub open spec fn digest_text(serialized: Seq<char>) -> Seq<char> {
    hex(sha256(encode_utf8(serialized)))
}

/// Appends the JSON string literal of `s` to `out`.
pub fn push_json_string(out: &mut String, s: &str)
    ensures
        final(out)@ == old(out)@ + json_string(s@),
{
    out.append(quote_json(s).as_str());
}

/// Appends the canonical text of `p` to `out`.
pub fn push_solution_json(out: &mut String, p: &ChallengeSolution)
    ensures
        final(out)@ == old(out)@ + solution_json(p@),
{
    out.append("{\"challenge_id\":");
    push_json_string(out, p.challenge_id.as_str());
    out.append(",\"language\":");
    push_json_string(out, p.language.as_str());
    out.append(",\"code\":");
    push_json_string(out, p.code.as_str());
    out.append(",\"author\":");
    push_json_string(out, p.author.as_str());
    out.append("}");
}

/// Appends the canonical text of `t` to `out`.
pub fn push_transaction_json(out: &mut String, t: &Transaction)
    ensures
        final(out)@ == old(out)@ + transaction_json(t@),
{
    out.append("{\"sender\":");
    push_json_string(out, t.sender.as_str());
    out.append(",\"recipient\":");
    push_json_string(out, t.recipient.as_str());
    out.append(",\"amount\":");
    push_decimal(out, t.amount);
    out.append(".0}");
}

/// Computes the digest text of `serialized`.
pub fn digest_of(serialized: &str) -> (r: String)
    ensures
        r@ == digest_text(serialized@),
        is_digest_shaped(r@),
{
    let digest = sha256_of(serialized.as_bytes());
    proof {
        lemma_hex_shape(digest@);
    }
    to_hex(digest.as_slice())
}

} // verus!
