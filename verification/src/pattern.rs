use regex::Regex;
use vstd::prelude::*;

verus! {

#[verifier::external_type_specification]
#[verifier::external_body]
pub struct ExRegex(regex::Regex);

#[verifier::external_type_specification]
#[verifier::external_body]
pub struct ExRegexError(regex::Error);

/// An expression compiled with the engine's default settings.
///
/// The field is private and only [`compile`] fills it, so every value of this
/// type came from `Regex::new`: what it matches is fixed by its pattern text.
pub struct Compiled {
    re: Regex,
}

/// The text of each capture group of a match, in the order of the groups;
/// `None` for a group that took no part in the match.
pub type Groups = Seq<Option<Seq<char>>>;

/// The pattern text of an expression that `compile` made: what
/// `Regex::as_str` returns for it.
pub uninterp spec fn pattern_of(c: Compiled) -> Seq<char>;

/// Whether `Regex::new` accepts the pattern.
pub uninterp spec fn compiles(pattern: Seq<char>) -> bool;

/// Whether the pattern, compiled by `Regex::new`, matches anywhere in the
/// text: what `Regex::is_match` then returns.
pub uninterp spec fn is_match(pattern: Seq<char>, text: Seq<char>) -> bool;

/// The capture groups of the leftmost match in the text of the pattern,
/// compiled by `Regex::new`, or `None` where there is no match: what
/// `Regex::captures` then returns.
pub uninterp spec fn capture_groups(pattern: Seq<char>, text: Seq<char>) -> Option<Groups>;

pub open spec fn text_of(s: Option<String>) -> Option<Seq<char>> {
    match s {
        Some(s) => Some(s@),
        None => None,
    }
}

pub open spec fn groups_of(v: Option<Vec<Option<String>>>) -> Option<Groups> {
    match v {
        Some(v) => Some(Seq::new(v@.len(), |i: int| text_of(v@[i]))),
        None => None,
    }
}

/// Calls `Regex::new`. Trusted: the call succeeds exactly on the patterns
/// that the crate accepts, and the expression it gives remembers the pattern
/// text it was made from.
#[verifier::external_body]
pub(crate) fn compile(pattern: &str) -> (r: Result<Compiled, regex::Error>)
    ensures
        r is Ok == compiles(pattern@),
        r matches Ok(c) ==> pattern_of(c) == pattern@,
{
    Regex::new(pattern).map(|re| Compiled { re })
}

/// Calls `Regex::as_str`. Trusted: for an expression that `compile` made, the
/// call returns the pattern text it was made from.
#[verifier::external_body]
pub(crate) fn as_text(c: &Compiled) -> (text: String)
    ensures
        text@ == pattern_of(*c),
{
    c.re.as_str().to_string()
}

/// Calls `Regex::is_match`. Trusted: for an expression that `compile` made,
/// the answer depends on the pattern text and the searched text alone.
#[verifier::external_body]
pub(crate) fn search(c: &Compiled, text: &str) -> (found: bool)
    ensures
        found == is_match(pattern_of(*c), text@),
{
    c.re.is_match(text)
}

/// Calls `Regex::captures` and copies out the text of each group. Trusted:
/// for an expression that `compile` made, the groups depend on the pattern
/// text and the searched text alone.
#[verifier::external_body]
pub(crate) fn captures(c: &Compiled, text: &str) -> (groups: Option<Vec<Option<String>>>)
    ensures
        groups_of(groups) == capture_groups(pattern_of(*c), text@),
{
    c.re.captures(text).map(|m| m.iter().map(|g| g.map(|g| g.as_str().to_string())).collect())
}

impl Compiled {
    /// The pattern text that the expression was compiled from.
    pub fn pattern(&self) -> (text: String)
        ensures
            text@ == pattern_of(*self),
    {
        as_text(self)
    }
}

} // verus!
