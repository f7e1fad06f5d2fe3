//! Regular-expression and fuzzy matching of area names, through the regex and fuzzy_matcher
//! crates.
use vstd::prelude::*;

use fuzzy_matcher::FuzzyMatcher;

verus! {

#[verifier::external_type_specification]
#[verifier::external_body]
pub struct ExRegex(regex::Regex);

/// Whether the regex crate compiles `pattern` (with its default limits).
pub uninterp spec fn pattern_compiles(pattern: Seq<char>) -> bool;

/// The `Debug` text of the error that the regex crate reports for a `pattern` that does not
/// compile.
pub uninterp spec fn pattern_error_of(pattern: Seq<char>) -> Seq<char>;

/// Whether the regular expression `pattern` matches somewhere in `text`.
pub uninterp spec fn pattern_finds(pattern: Seq<char>, text: Seq<char>) -> bool;

/// The score that fuzzy_matcher's `SkimMatcherV2`, in its default configuration, gives
/// `choice` for `pattern`; `None` where it finds no match.
pub uninterp spec fn skim_score(choice: Seq<char>, pattern: Seq<char>) -> Option<i64>;

/// A compiled regular expression, with the text it was compiled from. Only `compile_pattern`
/// builds one, so `re` is always what `source` compiles to.
pub struct AreaPattern {
    source: String,
    re: regex::Regex,
}

impl AreaPattern {
    /// The text this pattern was compiled from.
    pub closed spec fn source(&self) -> Seq<char> {
        self.source@
    }
}

/// Relies on regex's `Regex::new`: it succeeds exactly on the patterns that compile. The
/// pattern `.*` (any run of characters but newline) is one of them. A failure is handed on as
/// the `Debug` text of regex's `Error`, which depends on the pattern alone.
#[verifier::external_body]
pub(crate) fn compile_pattern(pattern: &str) -> (r: Result<AreaPattern, String>)
    ensures
        r is Ok <==> pattern_compiles(pattern@),
        r matches Ok(p) ==> p.source() == pattern@,
        r matches Err(t) ==> t@ == pattern_error_of(pattern@),
        pattern@ == ".*"@ ==> r is Ok,
{
    regex::Regex::new(pattern).map(|re| AreaPattern { source: pattern.to_string(), re }).map_err(
        |e| format!("{e:?}"),
    )
}

/// Relies on regex's `Regex::is_match`: whether the expression matches anywhere in `text`.
/// `.*` matches the empty string at the start of any text.
#[verifier::external_body]
pub(crate) fn pattern_is_match(p: &AreaPattern, text: &str) -> (r: bool)
    ensures
        r == pattern_finds(p.source(), text@),
        p.source() == ".*"@ ==> r,
{
    p.re.is_match(text)
}

/// A character in ASCII lower case; any other character is kept.
pub open spec fn ascii_lower(c: char) -> char {
    if 'A' <= c && c <= 'Z' {
        ((c as u32) + 32) as char
    } else {
        c
    }
}

/// Whether the characters of `pattern` occur in `choice` in order, ignoring ASCII case.
pub open spec fn folded_subsequence(pattern: Seq<char>, choice: Seq<char>) -> bool
    decreases choice.len(),
{
    if pattern.len() == 0 {
        true
    } else if choice.len() == 0 {
        false
    } else if ascii_lower(choice[0]) == ascii_lower(pattern[0]) {
        folded_subsequence(pattern.drop_first(), choice.drop_first())
    } else {
        folded_subsequence(pattern, choice.drop_first())
    }
}

/// Whether `s` holds an ASCII capital letter.
pub open spec fn has_ascii_upper(s: Seq<char>) -> bool {
    exists|i: int| 0 <= i < s.len() && 'A' <= #[trigger] s[i] && s[i] <= 'Z'
}

/// Relies on fuzzy_matcher's `SkimMatcherV2::default` and `FuzzyMatcher::fuzzy_match`. It scores
/// an empty pattern 0. It finds a match only where the pattern's characters occur in the choice
/// in order, ignoring ASCII case (its first pass, `cheap_matches`); for a pattern without
/// capitals, which it then compares ignoring case, that pass is also enough for a match.
#[verifier::external_body]
pub(crate) fn fuzzy_score(choice: &Vec<char>, pattern: &Vec<char>) -> (r: Option<i64>)
    ensures
        r == skim_score(choice@, pattern@),
        pattern@.len() == 0 ==> r == Some(0i64),
        r is Some ==> folded_subsequence(pattern@, choice@),
        !has_ascii_upper(pattern@) && folded_subsequence(pattern@, choice@) ==> r is Some,
{
    let choice: String = choice.iter().collect();
    let pattern: String = pattern.iter().collect();
    fuzzy_matcher::skim::SkimMatcherV2::default().fuzzy_match(&choice, &pattern)
}

} // verus!
