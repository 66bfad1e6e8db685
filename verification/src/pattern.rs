//! Tests of a line against the fixed tag patterns of the playlist format,
//! made with the `regex` crate.
use vstd::prelude::*;

use crate::text::{contains_text, starts_with};

verus! {

/// Characters that have a meaning of their own in a regular expression
/// outside a character class (and outside verbose mode).
pub open spec fn is_regex_special(c: char) -> bool {
    c == '\\' || c == '.' || c == '+' || c == '*' || c == '?' || c == '(' || c == ')' || c == '|'
        || c == '[' || c == ']' || c == '{' || c == '}' || c == '^' || c == '$'
}

/// A pattern made only of characters that stand for themselves.
pub open spec fn is_literal_pattern(p: Seq<char>) -> bool {
    forall|i: int| 0 <= i < p.len() ==> !is_regex_special(#[trigger] p[i])
}

/// A literal pattern, or `^` followed by a literal pattern.
pub open spec fn is_simple_pattern(p: Seq<char>) -> bool {
    ||| is_literal_pattern(p)
    ||| (p.len() > 0 && p[0] == '^' && is_literal_pattern(p.drop_first()))
}

/// `regex::Regex::new(pattern)` followed by `is_match(haystack)`.
/// For a pattern whose characters all stand for themselves, the regex matches
/// exactly where the pattern occurs as a substring of the haystack; a leading
/// `^` anchors that occurrence at the start of the haystack. Such a short
/// pattern always compiles. Nothing is claimed for other patterns, which
/// `requires` leaves out.
#[verifier::external_body]
pub(crate) fn regex_is_match(pattern: &str, haystack: &str) -> (r: bool)
    requires
        0 < pattern@.len() <= 64,
        is_simple_pattern(pattern@),
    ensures
        is_literal_pattern(pattern@) ==> r == contains_text(haystack@, pattern@),
        (pattern@[0] == '^' && is_literal_pattern(pattern@.drop_first())) ==> r == starts_with(
            haystack@,
            pattern@.drop_first(),
        ),
{
    regex::Regex::new(pattern).unwrap().is_match(haystack)
}

} // verus!
