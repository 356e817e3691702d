//! Action patterns, in two modes.
//!
//! In [`MatchMode::Search`] a pattern allows an action when the two are
//! equal, or when the pattern, with each `*` turned into `.*`, is a regular
//! expression that finds a match somewhere in the action. Nothing anchors the
//! expression and nothing escapes what else the pattern holds, so `s3:Get*`
//! allows `foo:s3:GetObjectBar`, and `s3.Get` allows `s3:Get`.
//!
//! In [`MatchMode::Anchored`] a pattern allows an action when the whole of
//! the action fits the whole of the pattern, see [`crate::glob`].

use vstd::prelude::*;

use crate::glob::{fits, glob_matches};
use crate::text::{replace_char, str_eq, substituted};

verus! {

#[verifier::external_type_specification]
#[verifier::external_body]
pub struct ExRegex(regex::Regex);

#[verifier::external_type_specification]
#[verifier::external_body]
pub struct ExRegexError(regex::Error);

/// What `regex::Regex::new` makes of a pattern: the compiled expression, or
/// `None` where the pattern is refused.
pub uninterp spec fn regex_compile(pattern: Seq<char>) -> Option<regex::Regex>;

/// What `regex::Regex::is_match` answers for a compiled expression and a
/// haystack.
pub uninterp spec fn regex_is_match(expression: regex::Regex, haystack: Seq<char>) -> bool;

/// `regex::Regex::new`: compiles a pattern with the default settings. The
/// outcome depends on the pattern alone, so the contract names it.
#[verifier::external_body]
fn compile(pattern: &str) -> (compiled: Result<regex::Regex, regex::Error>)
    ensures
        compiled is Ok <==> regex_compile(pattern@) is Some,
        compiled matches Ok(expression) ==> regex_compile(pattern@) == Some(expression),
{
    regex::Regex::new(pattern)
}

/// `regex::Regex::is_match`: whether the expression matches anywhere in the
/// haystack. The answer depends on the two alone, so the contract names it.
#[verifier::external_body]
fn is_match(expression: &regex::Regex, haystack: &str) -> (found: bool)
    ensures
        found == regex_is_match(*expression, haystack@),
{
    expression.is_match(haystack)
}

/// How patterns are held against actions.
#[derive(Clone, Copy, Debug, PartialEq, Eq, Structural)]
pub enum MatchMode {
    /// By equality, or else by an unanchored search with the pattern as a
    /// regular expression. This is the default.
    Search,
    /// By fitting the whole action to the whole pattern.
    Anchored,
}

impl Default for MatchMode {
    fn default() -> (mode: MatchMode)
        ensures
            mode == MatchMode::Search,
    {
        MatchMode::Search
    }
}

/// The regular expression that stands for an action pattern: each `*`
/// becomes `.*`, every other character is taken as it is.
pub open spec fn wildcard_expression(pattern: Seq<char>) -> Seq<char> {
    substituted(pattern, '*', seq!['.', '*'])
}

/// What the search for `pattern` in `action` gives: `None` where the
/// pattern gives no regular expression.
pub open spec fn search_outcome(pattern: Seq<char>, action: Seq<char>) -> Option<bool> {
    match regex_compile(wildcard_expression(pattern)) {
        Some(expression) => Some(regex_is_match(expression, action)),
        None => None,
    }
}

/// Whether `pattern` allows `action`. In [`MatchMode::Search`] it is `None`
/// where that cannot be told, because the two differ and the pattern gives
/// no regular expression; in [`MatchMode::Anchored`] it can always be told.
pub open spec fn pattern_outcome(pattern: Seq<char>, action: Seq<char>, mode: MatchMode) -> Option<
    bool,
> {
    match mode {
        MatchMode::Search => decided(pattern == action, search_outcome(pattern, action)),
        MatchMode::Anchored => Some(fits(pattern, action)),
    }
}

/// How one pattern is decided once its two facts are known: whether it
/// equals the action, and what the search with its regular expression gave
/// (`None` where the expression did not compile).
pub open spec fn decided(equal: bool, searched: Option<bool>) -> Option<bool> {
    if equal {
        Some(true)
    } else {
        searched
    }
}

/// Decides one pattern from whether it equals the action and from the
/// outcome of the search with its regular expression.
pub fn decide(equal: bool, searched: Option<bool>) -> (outcome: Option<bool>)
    ensures
        outcome == decided(equal, searched),
{
    if equal {
        Some(true)
    } else {
        searched
    }
}

/// The regular expression of an action pattern.
pub fn wildcard_to_regex(pattern: &str) -> (expression: String)
    ensures
        expression@ == wildcard_expression(pattern@),
{
    proof {
        reveal_strlit(".*");
        assert(".*"@ =~= seq!['.', '*']);
    }
    replace_char(pattern, '*', ".*")
}

/// Searches `action` with the regular expression of `pattern`; `None` where
/// the expression does not compile.
pub fn search(pattern: &str, action: &str) -> (searched: Option<bool>)
    ensures
        searched == search_outcome(pattern@, action@),
{
    let expression = wildcard_to_regex(pattern);
    match compile(expression.as_str()) {
        Ok(compiled) => Some(is_match(&compiled, action)),
        Err(_) => None,
    }
}

/// Whether `pattern` allows `action`.
///
/// In [`MatchMode::Search`] it is `None` exactly where the two differ and
/// the pattern gives no regular expression. In [`MatchMode::Anchored`] it is
/// never `None`.
pub fn try_pattern_matches(pattern: &str, action: &str, mode: MatchMode) -> (outcome: Option<bool>)
    ensures
        outcome == pattern_outcome(pattern@, action@, mode),
{
    match mode {
        MatchMode::Search => {
            let equal = str_eq(pattern, action);
            let searched = if equal {
                None
            } else {
                search(pattern, action)
            };
            decide(equal, searched)
        },
        MatchMode::Anchored => Some(glob_matches(pattern, action)),
    }
}

/// In either mode a pattern allows the action that it equals.
pub proof fn lemma_equal_pattern_allows(action: Seq<char>, mode: MatchMode)
    ensures
        pattern_outcome(action, action, mode) == Some(true),
{
    crate::glob::lemma_fits_itself(action);
}

} // verus!
