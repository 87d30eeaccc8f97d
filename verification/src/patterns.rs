//! Regular expressions, as the `regex` crate compiles and runs them.
//!
//! Nothing in this file is proved: it states what the rest of the library
//! takes for granted about that crate.

use vstd::prelude::*;
use regex::Regex;

verus! {

/// `regex::Regex`, a compiled expression: carried through, never looked
/// into.
#[verifier::external_type_specification]
#[verifier::external_body]
pub struct ExRegex(regex::Regex);

/// `regex::Error`, the refusal of a pattern: carried through, never looked
/// into.
#[verifier::external_type_specification]
#[verifier::external_body]
pub struct ExRegexError(regex::Error);

/// The pattern text that `Regex::as_str` gives for a compiled expression.
pub uninterp spec fn regex_source(re: Regex) -> Seq<char>;

/// What `Regex::is_match` answers for a compiled expression and a haystack.
pub uninterp spec fn regex_matches(re: Regex, haystack: Seq<char>) -> bool;

/// `Regex::new`: nothing is said of which patterns compile. An expression
/// that was compiled keeps the pattern text it was compiled from.
pub assume_specification[ Regex::new ](re: &str) -> (r: Result<Regex, regex::Error>)
    ensures
        r matches Ok(compiled) ==> regex_source(compiled) == re@,
;

/// `Regex::is_match`: the answer depends on the expression and the haystack
/// alone.
pub assume_specification[ Regex::is_match ](re: &Regex, haystack: &str) -> (r: bool)
    ensures
        r == regex_matches(*re, haystack@),
;

/// `Regex::as_str`: the pattern text of the expression.
pub assume_specification<'a>[ Regex::as_str ](re: &'a Regex) -> (r: &'a str)
    ensures
        r@ == regex_source(*re),
;

/// Why a pattern was not compiled.
pub enum PatternError {
    /// The pattern is not a well-formed expression; the text says where.
    Syntax(String),
    /// The compiled expression would exceed the size limit, which is given.
    TooBig(usize),
    /// Any other refusal.
    Other,
}

/// Tells the variants of `regex::Error` apart.
#[verifier::external_body]
pub(crate) fn pattern_error(error: regex::Error) -> PatternError {
    match error {
        regex::Error::Syntax(message) => PatternError::Syntax(message),
        regex::Error::CompiledTooBig(limit) => PatternError::TooBig(limit),
        _ => PatternError::Other,
    }
}

/// What `Regex::captures` finds for a compiled expression in a haystack:
/// `None` where there is no match, otherwise the text of every group, the
/// whole match first, with `None` for a group that took no part.
pub uninterp spec fn regex_groups(re: Regex, haystack: Seq<char>) -> Option<Seq<Option<Seq<char>>>>;

/// The texts of a list of groups.
pub open spec fn group_texts(groups: Seq<Option<String>>) -> Seq<Option<Seq<char>>> {
    Seq::new(
        groups.len(),
        |i: int|
            match groups[i] {
                Some(text) => Some(text@),
                None => None,
            },
    )
}

/// `Regex::captures`, with the groups of the leftmost match copied out in
/// their order: the answer depends on the expression and the haystack alone.
#[verifier::external_body]
pub(crate) fn capture_groups(re: &Regex, haystack: &str) -> (found: Option<Vec<Option<String>>>)
    ensures
        match found {
            Some(groups) => regex_groups(*re, haystack@) == Some(group_texts(groups@)),
            None => regex_groups(*re, haystack@) is None,
        },
{
    re.captures(haystack).map(
        |caps| caps.iter().map(|group| group.map(|found| found.as_str().to_string())).collect(),
    )
}

} // verus!
