//! Fuzzy matching of menu entries and tables against what the user typed.
use fuzzy_matcher::FuzzyMatcher;
use vstd::prelude::*;

verus! {

/// The score that a case-insensitive skim matcher gives `pattern` against
/// `choice` (`None` when the pattern does not match).
pub uninterp spec fn skim_score(choice: Seq<char>, pattern: Seq<char>) -> Option<i64>;

/// Scores `pattern` against `choice` with `fuzzy_matcher`'s
/// `SkimMatcherV2::default().ignore_case()` and `FuzzyMatcher::fuzzy_match`.
/// The contract claims that the score depends on the two strings alone and,
/// as the matcher's source shows, that an empty pattern matches with score 0
/// and that a score is an `i32` cell of its score matrix widened to `i64`.
#[verifier::external_body]
pub(crate) fn fuzzy_score(choice: &str, pattern: &str) -> (r: Option<i64>)
    ensures
        r == skim_score(choice@, pattern@),
        pattern@.len() == 0 ==> r == Some(0i64),
        r matches Some(s) ==> i32::MIN <= s <= i32::MAX,
{
    fuzzy_matcher::skim::SkimMatcherV2::default().ignore_case().fuzzy_match(choice, pattern)
}

} // verus!
