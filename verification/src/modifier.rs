//! The modifier tag of a marker, such as `:04` or `:^10`, is recognised by a
//! regular expression. The regex engine is not verified: what this module
//! states of it is believed.

use vstd::prelude::*;
use crate::error::ScanError;

verus! {

/// `regex::Regex`, a compiled regular expression. Nothing inside it is seen
/// here.
#[verifier::external_type_specification]
#[verifier::external_body]
pub struct ExRegex(regex::Regex);

/// `regex::Error`, the reason for which a pattern was refused. Nothing inside
/// it is seen here.
#[verifier::external_type_specification]
#[verifier::external_body]
pub struct ExRegexError(regex::Error);

/// The pattern of a modifier tag: a colon, then optionally a fill codepoint
/// with an alignment, a sign, `#`, `0`, a width, a precision, a type letter
/// and `?`.
pub const MODIFIER_PATTERN: &'static str =
    r#"^:(?:(?:.?[<\^>])?[\+\-]?#?0?\d*(?:\.\d+)?(?:[oxXpbeE]?\??))"#;

/// The regex that `regex::Regex::new` makes of `pattern`, or `None` where it
/// refuses the pattern. Two regexes made of one pattern match alike: they
/// count as one value here.
pub uninterp spec fn compiled(pattern: Seq<char>) -> Option<regex::Regex>;

/// The number of codepoints of `haystack` that stand before the end of the
/// leftmost match of `re` in it, as `regex::Regex::find` reports it, or
/// `None` where nothing matches.
pub uninterp spec fn match_end(re: regex::Regex, haystack: Seq<char>) -> Option<nat>;

/// Calls `regex::Regex::new`. Believed: whether the pattern is accepted, and
/// how the regex made of it matches, depends on the pattern alone.
#[verifier::external_body]
fn compile(pattern: &str) -> (r: Result<regex::Regex, regex::Error>)
    ensures
        match r {
            Ok(re) => compiled(pattern@) == Some(re),
            Err(_) => compiled(pattern@) is None,
        },
{
    regex::Regex::new(pattern)
}

/// Calls `regex::Regex::find` on the text from `from` on and gives the end
/// of the leftmost match, counted in codepoints from `from`. Believed: the
/// outcome depends on the regex and that text alone, and a match ends inside
/// the text.
#[verifier::external_body]
pub(crate) fn find_end(re: &regex::Regex, text: &[char], from: usize) -> (r: Option<usize>)
    requires
        from <= text@.len(),
    ensures
        match r {
            Some(n) => n <= text@.len() - from && match_end(
                *re,
                text@.subrange(from as int, text@.len() as int),
            ) == Some(n as nat),
            None => match_end(*re, text@.subrange(from as int, text@.len() as int)) is None,
        },
{
    let haystack: String = text[from..].iter().collect();
    match re.find(&haystack) {
        Some(m) => Some(haystack[..m.end()].chars().count()),
        None => None,
    }
}

/// Compiles `pattern`, for the regex engine to say whether it is one.
pub fn regex_of(pattern: &str) -> (r: Result<regex::Regex, ScanError>)
    ensures
        match r {
            Ok(re) => compiled(pattern@) == Some(re),
            Err(e) => e == ScanError::InvalidPattern && compiled(pattern@) is None,
        },
{
    match compile(pattern) {
        Ok(re) => Ok(re),
        Err(_) => Err(ScanError::InvalidPattern),
    }
}

/// Compiles the pattern of the modifier tag.
pub fn modifier_regex() -> (r: Result<regex::Regex, ScanError>)
    ensures
        match r {
            Ok(re) => compiled(MODIFIER_PATTERN@) == Some(re),
            Err(e) => e == ScanError::InvalidPattern && compiled(MODIFIER_PATTERN@) is None,
        },
{
    regex_of(MODIFIER_PATTERN)
}

} // verus!
