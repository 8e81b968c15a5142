//! The answer to a yes-or-no question.

use crate::text::text_eq;
use vstd::prelude::*;

verus! {

/// `c` is whitespace: one of the characters that Unicode gives the property
/// White_Space.
pub open spec fn white_space(c: char) -> bool {
    ||| '\u{9}' <= c <= '\u{d}'
    ||| c == ' '
    ||| c == '\u{85}'
    ||| c == '\u{a0}'
    ||| c == '\u{1680}'
    ||| '\u{2000}' <= c <= '\u{200a}'
    ||| c == '\u{2028}'
    ||| c == '\u{2029}'
    ||| c == '\u{202f}'
    ||| c == '\u{205f}'
    ||| c == '\u{3000}'
}

/// Whether `c` is whitespace.
pub fn is_white_space(c: char) -> (r: bool)
    ensures
        r == white_space(c),
{
    ('\u{9}' <= c && c <= '\u{d}') || c == ' ' || c == '\u{85}' || c == '\u{a0}' || c
        == '\u{1680}' || ('\u{2000}' <= c && c <= '\u{200a}') || c == '\u{2028}' || c
        == '\u{2029}' || c == '\u{202f}' || c == '\u{205f}' || c == '\u{3000}'
}

/// The number of whitespace characters that the text begins with.
pub open spec fn leading_white_space(text: Seq<char>) -> nat
    decreases text.len(),
{
    if text.len() == 0 || !white_space(text[0]) {
        0
    } else {
        1 + leading_white_space(text.drop_first())
    }
}

/// The number of whitespace characters that the text ends with.
pub open spec fn trailing_white_space(text: Seq<char>) -> nat
    decreases text.len(),
{
    if text.len() == 0 || !white_space(text.last()) {
        0
    } else {
        1 + trailing_white_space(text.drop_last())
    }
}

/// The text without the whitespace at its start and at its end.
pub open spec fn trimmed(text: Seq<char>) -> Seq<char> {
    let rest = text.skip(leading_white_space(text) as int);
    rest.take(rest.len() - trailing_white_space(rest))
}

/// Takes the whitespace off the start and the end of a text.
///
/// Trusted: stands for `str::trim`, which returns the text without leading
/// and trailing whitespace, whitespace being the characters with the Unicode
/// property White_Space.
#[verifier::external_body]
fn trim(text: &str) -> (r: &str)
    ensures
        r@ == trimmed(text@),
{
    text.trim()
}

/// What an answer says: yes, no, or neither.
pub open spec fn answer_of(text: Seq<char>) -> Option<bool> {
    if text == "y"@ || text == "yes"@ || text == "Y"@ {
        Some(true)
    } else if text == "n"@ || text == "no"@ || text == "N"@ {
        Some(false)
    } else {
        None
    }
}

/// What an answer says: yes, no, or neither.
pub fn answer(text: &str) -> (r: Option<bool>)
    ensures
        r == answer_of(text@),
{
    if text_eq(text, "y") || text_eq(text, "yes") || text_eq(text, "Y") {
        Some(true)
    } else if text_eq(text, "n") || text_eq(text, "no") || text_eq(text, "N") {
        Some(false)
    } else {
        None
    }
}

/// What a line that was typed as an answer says, whatever whitespace
/// stands around it.
pub fn parse_answer(line: &str) -> (r: Option<bool>)
    ensures
        r == answer_of(trimmed(line@)),
{
    answer(trim(line))
}

} // verus!
