use fuzzy_matcher::skim::SkimMatcherV2;
use fuzzy_matcher::FuzzyMatcher;
use vstd::prelude::*;

verus! {

/// The score that a newly built, default-configured skim (V2) matcher gives to `text`
/// under `pattern`, or `None` when the pattern does not match.
pub uninterp spec fn skim_score(text: Seq<char>, pattern: Seq<char>) -> Option<i64>;

/// `c` with an ASCII capital turned into its small letter, as a code point.
pub open spec fn fold_ascii(c: char) -> int {
    if 'A' <= c && c <= 'Z' {
        (c as u32) as int + 32
    } else {
        (c as u32) as int
    }
}

/// Whether a text character matches a pattern character.
pub open spec fn chars_match(t: char, p: char, case_sensitive: bool) -> bool {
    if case_sensitive {
        t == p
    } else {
        fold_ascii(t) == fold_ascii(p)
    }
}

/// Whether the pattern holds an ASCII capital (which makes matching case-sensitive).
pub open spec fn has_ascii_upper(p: Seq<char>) -> bool {
    exists|i: int| 0 <= i < p.len() && 'A' <= #[trigger] p[i] && p[i] <= 'Z'
}

/// Whether the characters of `p` occur in `t` in order.
pub open spec fn occurs_in_order(p: Seq<char>, t: Seq<char>, case_sensitive: bool) -> bool
    decreases t.len(),
{
    if p.len() == 0 {
        true
    } else if t.len() == 0 {
        false
    } else if chars_match(t[0], p[0], case_sensitive) {
        occurs_in_order(p.drop_first(), t.drop_first(), case_sensitive)
    } else {
        occurs_in_order(p, t.drop_first(), case_sensitive)
    }
}

/// Relies on `SkimMatcherV2::default` and `FuzzyMatcher::fuzzy_match`. The
/// matcher is built anew for each call, so no scratch state of an earlier
/// call reaches this one: the score depends on the text and the pattern
/// alone. An empty pattern matches with score 0, and there is a score exactly when
/// the pattern's characters occur in the text in order (ASCII case ignored
/// unless the pattern holds an ASCII capital).
#[verifier::external_body]
pub(crate) fn fuzzy_score(text: &str, pattern: &str) -> (r: Option<i64>)
    ensures
        r == skim_score(text@, pattern@),
        pattern@.len() == 0 ==> r == Some(0i64),
        r is Some <==> occurs_in_order(pattern@, text@, has_ascii_upper(pattern@)),
{
    SkimMatcherV2::default().fuzzy_match(text, pattern)
}

} // verus!
