//! The two outside matchers the search uses: the `regex` crate for the
//! quick-answer grammars and the Skim fuzzy scorer of `fuzzy-matcher`.

use vstd::prelude::*;
use fuzzy_matcher::skim::SkimMatcherV2;
use fuzzy_matcher::FuzzyMatcher;

verus! {

/// What `Regex::new(pattern)` followed by `captures(text)` yields: `None`
/// when the pattern does not compile or does not match, else the text of each
/// capture group (group 0 first), `None` for a group that took no part.
pub uninterp spec fn regex_captures_of(pattern: Seq<char>, text: Seq<char>) -> Option<
    Seq<Option<Seq<char>>>,
>;

/// The score `SkimMatcherV2::default().fuzzy_match(choice, pattern)`
/// gives: `None` when `pattern` does not match `choice`.
pub uninterp spec fn skim_score(choice: Seq<char>, pattern: Seq<char>) -> Option<i64>;

/// Compiles `pattern` with `regex::Regex::new` and runs `Regex::captures` on
/// `text`. The contract claims only that the result is the one named by
/// `regex_captures_of`: a function of the pattern and the text alone. What
/// the regex matches is not stated.
#[verifier::external_body]
pub(crate) fn regex_captures(pattern: &str, text: &str) -> (r: Option<Vec<Option<String>>>)
    ensures
        r.deep_view() == regex_captures_of(pattern@, text@),
{
    match regex::Regex::new(pattern) {
        Ok(re) => re.captures(text).map(
            |caps| caps.iter().map(|m| m.map(|m| m.as_str().to_string())).collect(),
        ),
        Err(_) => None,
    }
}

/// `SkimMatcherV2::default().fuzzy_match(choice, pattern)` of
/// `fuzzy-matcher`. The contract claims that the score is a function of the
/// two strings (named `skim_score`), and, as the source shows, that an empty
/// pattern scores `Some(0)` and that every score is an `i32` widened to
/// `i64` (the matrix cells, bonuses and running score of the matcher are
/// `i32`).
#[verifier::external_body]
pub(crate) fn fuzzy_score(choice: &str, pattern: &str) -> (r: Option<i64>)
    ensures
        r == skim_score(choice@, pattern@),
        pattern@.len() == 0 ==> r == Some(0i64),
        r matches Some(x) ==> i32::MIN <= x <= i32::MAX,
{
    SkimMatcherV2::default().fuzzy_match(choice, pattern)
}

/// Capture group `i` of a capture result, if it took part in the match.
pub fn group(caps: &Vec<Option<String>>, i: usize) -> (r: Option<String>)
    ensures
        r.deep_view() == (if i < caps@.len() {
            caps.deep_view()[i as int]
        } else {
            None
        }),
{
    if i < caps.len() {
        match &caps[i] {
            Some(s) => Some(s.clone()),
            None => None,
        }
    } else {
        None
    }
}

} // verus!
