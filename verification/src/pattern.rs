//! Regular expressions, as far as the format checks use them: the `regex`
//! crate compiles and matches, and what it answers is taken on trust.
use vstd::prelude::*;

verus! {

/// `regex::Regex`, a compiled regular expression. Nothing is known of what is
/// inside.
#[verifier::external_type_specification]
#[verifier::external_body]
pub struct ExRegex(regex::Regex);

/// `regex::Error`, the reason why a pattern did not compile. Nothing is known
/// of what is inside.
#[verifier::external_type_specification]
#[verifier::external_body]
pub struct ExRegexError(regex::Error);

/// What a compiled expression holds for the checks: the haystacks in which
/// `regex::Regex::is_match` finds a match.
pub uninterp spec fn matched_by(re: regex::Regex) -> Set<Seq<char>>;

/// What `regex::Regex::new` makes of a pattern: the haystacks that the
/// compiled expression matches, or nothing where the pattern does not compile.
pub uninterp spec fn pattern_language(pattern: Seq<char>) -> Option<Set<Seq<char>>>;

/// `regex::Regex::new` compiles a pattern. Whether it succeeds, and which
/// haystacks the compiled expression then matches, depends on the pattern
/// alone. Nothing is claimed of which patterns compile or of what they match.
pub assume_specification[ regex::Regex::new ](re: &str) -> (compiled: Result<
    regex::Regex,
    regex::Error,
>)
    ensures
        match compiled {
            Ok(regex) => pattern_language(re@) == Some(matched_by(regex)),
            Err(_) => pattern_language(re@) is None,
        },
;

/// `regex::Regex::is_match` says whether the expression finds a match
/// anywhere in the haystack. The answer depends on the expression and the
/// haystack alone.
pub assume_specification[ regex::Regex::is_match ](re: &regex::Regex, haystack: &str) -> (found:
    bool)
    ensures
        found == matched_by(*re).contains(haystack@),
;

/// Whether `pattern` compiles and then finds a match in `text`.
pub open spec fn fits(pattern: Seq<char>, text: Seq<char>) -> bool {
    match pattern_language(pattern) {
        Some(language) => language.contains(text),
        None => false,
    }
}

/// Whether `pattern` compiles and then finds a match in `text`. A pattern that
/// does not compile fits no text.
pub fn finds_match(pattern: &str, text: &str) -> (found: bool)
    ensures
        found == fits(pattern@, text@),
{
    match regex::Regex::new(pattern) {
        Ok(regex) => regex.is_match(text),
        Err(_) => false,
    }
}

} // verus!
