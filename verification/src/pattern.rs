//! Regular expressions, matched by `regex`.

use vstd::prelude::*;

verus! {

/// Whether `regex` finds a match of the pattern anywhere in the text, if
/// the pattern is a regular expression that `regex` accepts.
pub uninterp spec fn regex_match(pattern: Seq<char>, text: Seq<char>) -> Option<bool>;

/// `regex::Regex::new` followed by `is_match`: the answer is a function of
/// pattern and text; there is none where `new` rejects the pattern.
#[verifier::external_body]
fn search(pattern: &str, text: &str) -> (r: Option<bool>)
    ensures
        r == regex_match(pattern@, text@),
{
    match regex::Regex::new(pattern) {
        Ok(re) => Some(re.is_match(text)),
        Err(_) => None,
    }
}

/// Whether the pattern matches somewhere in the text; nothing where the
/// pattern is not a regular expression.
pub fn matches_pattern(pattern: &str, text: &str) -> (r: Option<bool>)
    ensures
        r == regex_match(pattern@, text@),
{
    search(pattern, text)
}

} // verus!
