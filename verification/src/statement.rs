//! One policy statement against one action.
//!
//! A statement allows an action when its `Effect` is the string `Allow` and
//! its `Action`, a pattern or an array of patterns, holds a pattern that
//! allows the action. Nothing else in the statement is read: no `Resource`,
//! no `Condition`, and a `Deny` takes nothing away.
//!
//! Patterns are tried in order and the first that allows the action settles
//! the matter, so what comes after it is never looked at. How a pattern is
//! held against the action is a matter of the [`MatchMode`].

use vstd::prelude::*;

use crate::json::{items_view, lemma_view_of_items, Json, JsonValue};
use crate::pattern::{lemma_equal_pattern_allows, pattern_outcome, try_pattern_matches, MatchMode};
use crate::text::str_eq;

verus! {

/// Why a statement cannot be decided.
#[derive(Clone, Copy, Debug, PartialEq, Eq, Structural)]
pub enum StatementError {
    /// The statement has no `Effect` member.
    MissingEffect,
    /// The statement allows something, but has no `Action` member.
    MissingAction,
    /// An item of the `Action` array is not a string.
    ActionNotString,
    /// A pattern had to be tried as a regular expression and is none.
    InvalidPattern,
}

/// The outcome of one pattern as the outcome of a statement.
pub open spec fn pattern_result(outcome: Option<bool>) -> Result<bool, StatementError> {
    match outcome {
        Some(allowed) => Ok(allowed),
        None => Err(StatementError::InvalidPattern),
    }
}

/// The outcome of an `Action` array: its patterns are tried from the front,
/// up to the first that allows the action or cannot be decided.
pub open spec fn scan_outcome(items: Seq<JsonValue>, action: Seq<char>, mode: MatchMode) -> Result<
    bool,
    StatementError,
>
    decreases items.len(),
{
    if items.len() == 0 {
        Ok(false)
    } else {
        match items[0].as_str() {
            None => Err(StatementError::ActionNotString),
            Some(pattern) => match pattern_outcome(pattern, action, mode) {
                None => Err(StatementError::InvalidPattern),
                Some(true) => Ok(true),
                Some(false) => scan_outcome(items.drop_first(), action, mode),
            },
        }
    }
}

/// The outcome of an `Action` member, which is a pattern, an array of
/// patterns, or something that allows nothing.
pub open spec fn action_outcome(member: JsonValue, action: Seq<char>, mode: MatchMode) -> Result<
    bool,
    StatementError,
> {
    match member {
        JsonValue::String(pattern) => pattern_result(pattern_outcome(pattern, action, mode)),
        JsonValue::Array(items) => scan_outcome(items, action, mode),
        _ => Ok(false),
    }
}

/// Whether the `Effect` member is the string `Allow`.
pub open spec fn is_allow(effect: JsonValue) -> bool {
    effect.as_str() == Some("Allow"@)
}

/// Whether `statement` allows `action`, or why that cannot be decided.
pub open spec fn statement_outcome(
    statement: JsonValue,
    action: Seq<char>,
    mode: MatchMode,
) -> Result<bool, StatementError> {
    match statement.get("Effect"@) {
        None => Err(StatementError::MissingEffect),
        Some(effect) => if !is_allow(effect) {
            Ok(false)
        } else {
            match statement.get("Action"@) {
                None => Err(StatementError::MissingAction),
                Some(member) => action_outcome(member, action, mode),
            }
        },
    }
}

/// Turns the outcome of one pattern into the outcome of a statement.
fn pattern_to_result(outcome: Option<bool>) -> (result: Result<bool, StatementError>)
    ensures
        result == pattern_result(outcome),
{
    match outcome {
        Some(allowed) => Ok(allowed),
        None => Err(StatementError::InvalidPattern),
    }
}

/// Tries the patterns of an `Action` array in order.
fn scan_patterns(items: &Vec<Json>, action: &str, mode: MatchMode) -> (outcome: Result<
    bool,
    StatementError,
>)
    ensures
        outcome == scan_outcome(items_view(items@), action@, mode),
{
    let ghost all = items_view(items@);
    assert(all.skip(0) == all);
    let mut i: usize = 0;
    while i < items.len()
        invariant
            i <= items.len(),
            all == items_view(items@),
            scan_outcome(all, action@, mode) == scan_outcome(all.skip(i as int), action@, mode),
        decreases items.len() - i,
    {
        assert(all.skip(i as int)[0] == items@[i as int]@);
        assert(all.skip(i as int).drop_first() == all.skip(i + 1));
        match items[i].as_str() {
            None => {
                return Err(StatementError::ActionNotString);
            },
            Some(pattern) => match try_pattern_matches(pattern, action, mode) {
                None => {
                    return Err(StatementError::InvalidPattern);
                },
                Some(true) => {
                    return Ok(true);
                },
                Some(false) => {},
            },
        }
        i += 1;
    }
    Ok(false)
}

/// Whether `statement` allows `action_name`, or why that cannot be decided.
///
/// It returns an error exactly where the statement is malformed at a place
/// that deciding it has to read: a missing `Effect`; for an allowing
/// statement a missing `Action`; an item of the `Action` array that is not a
/// string; in [`MatchMode::Search`], a pattern that differs from the action
/// and is no regular expression.
pub fn evaluate_statement(statement: &Json, action_name: &str, mode: MatchMode) -> (outcome: Result<
    bool,
    StatementError,
>)
    ensures
        outcome == statement_outcome(statement@, action_name@, mode),
{
    let effect = match statement.get("Effect") {
        None => {
            return Err(StatementError::MissingEffect);
        },
        Some(effect) => effect,
    };
    let allow = match effect.as_str() {
        Some(text) => str_eq(text, "Allow"),
        None => false,
    };
    if !allow {
        return Ok(false);
    }
    let member = match statement.get("Action") {
        None => {
            return Err(StatementError::MissingAction);
        },
        Some(member) => member,
    };
    proof {
        lemma_view_of_items(*member);
    }
    match member {
        Json::String(pattern) => pattern_to_result(
            try_pattern_matches(pattern.as_str(), action_name, mode),
        ),
        Json::Array(items) => scan_patterns(items, action_name, mode),
        _ => Ok(false),
    }
}

/// Whether `statement` allows `action_name`, with patterns held against the
/// action as [`MatchMode::Search`] does.
///
/// The statement has to be one that can be decided: see
/// [`evaluate_statement`] for the statements that cannot.
pub fn check_action_in_statement(statement: &Json, action_name: &String) -> (allowed: bool)
    requires
        statement_outcome(statement@, action_name@, MatchMode::Search) is Ok,
    ensures
        statement_outcome(statement@, action_name@, MatchMode::Search) == Ok::<
            bool,
            StatementError,
        >(allowed),
{
    match evaluate_statement(statement, action_name.as_str(), MatchMode::Search) {
        Ok(allowed) => allowed,
        Err(_) => vstd::pervasive::unreached(),
    }
}

/// A statement whose `Effect` is anything but the string `Allow` allows no
/// action, whatever its `Action` holds.
pub proof fn lemma_only_allow_allows(statement: JsonValue, action: Seq<char>, mode: MatchMode)
    requires
        statement.get("Effect"@) is Some,
        !is_allow(statement.get("Effect"@).unwrap()),
    ensures
        statement_outcome(statement, action, mode) == Ok::<bool, StatementError>(false),
{
}

/// An allowing statement whose `Action` is a string equal to the action
/// allows it.
pub proof fn lemma_exact_action_allowed(statement: JsonValue, action: Seq<char>, mode: MatchMode)
    requires
        statement.get("Effect"@) is Some,
        is_allow(statement.get("Effect"@).unwrap()),
        statement.get("Action"@) == Some(JsonValue::String(action)),
    ensures
        statement_outcome(statement, action, mode) == Ok::<bool, StatementError>(true),
{
    lemma_equal_pattern_allows(action, mode);
}

/// An allowing statement whose `Action` is an array allows an action that
/// one of its items equals, as long as every item before that one is a
/// pattern that can be decided and does not allow the action.
pub proof fn lemma_exact_item_allowed(
    items: Seq<JsonValue>,
    action: Seq<char>,
    mode: MatchMode,
    at: int,
)
    requires
        0 <= at < items.len(),
        items[at] == JsonValue::String(action),
        forall|i: int|
            0 <= i < at ==> (#[trigger] items[i]) is String && pattern_outcome(
                items[i]->String_0,
                action,
                mode,
            ) == Some(false),
    ensures
        scan_outcome(items, action, mode) == Ok::<bool, StatementError>(true),
    decreases at,
{
    if at > 0 {
        let rest = items.drop_first();
        assert(items[0] is String);
        assert forall|i: int| 0 <= i < at - 1 implies (#[trigger] rest[i]) is String
            && pattern_outcome(rest[i]->String_0, action, mode) == Some(false) by {
            assert(rest[i] == items[i + 1]);
        }
        lemma_exact_item_allowed(rest, action, mode, at - 1);
    } else {
        lemma_equal_pattern_allows(action, mode);
    }
}

/// Whether the item is a pattern that is decided not to allow the action.
pub open spec fn decided_not_to(item: JsonValue, action: Seq<char>, mode: MatchMode) -> bool {
    item is String && pattern_outcome(item->String_0, action, mode) == Some(false)
}

/// Whether the item at `at` allows the action and every item before it is
/// decided not to.
pub open spec fn first_to_allow(
    items: Seq<JsonValue>,
    action: Seq<char>,
    mode: MatchMode,
    at: int,
) -> bool {
    &&& items[at] is String
    &&& pattern_outcome(items[at]->String_0, action, mode) == Some(true)
    &&& forall|i: int| 0 <= i < at ==> decided_not_to(#[trigger] items[i], action, mode)
}

/// An `Action` array allows an action exactly when every item up to some
/// item is a string, that item allows the action, and every item before it
/// is decided not to.
pub proof fn lemma_scan_allows(items: Seq<JsonValue>, action: Seq<char>, mode: MatchMode)
    ensures
        scan_outcome(items, action, mode) == Ok::<bool, StatementError>(true) <==> exists|at: int|
            #![trigger items[at]]
            0 <= at < items.len() && first_to_allow(items, action, mode, at),
    decreases items.len(),
{
    if items.len() > 0 {
        let rest = items.drop_first();
        lemma_scan_allows(rest, action, mode);
        if scan_outcome(items, action, mode) == Ok::<bool, StatementError>(true) {
            if items[0] is String && pattern_outcome(items[0]->String_0, action, mode) == Some(
                true,
            ) {
                assert(first_to_allow(items, action, mode, 0));
            } else {
                let at = choose|at: int|
                    #![trigger rest[at]]
                    0 <= at < rest.len() && first_to_allow(rest, action, mode, at);
                assert forall|i: int| 0 <= i < at + 1 implies decided_not_to(
                    #[trigger] items[i],
                    action,
                    mode,
                ) by {
                    if i > 0 {
                        assert(items[i] == rest[i - 1]);
                    }
                }
                assert(items[at + 1] == rest[at]);
                assert(first_to_allow(items, action, mode, at + 1));
            }
        }
        if exists|at: int|
            #![trigger items[at]]
            0 <= at < items.len() && first_to_allow(items, action, mode, at) {
            let at = choose|at: int|
                #![trigger items[at]]
                0 <= at < items.len() && first_to_allow(items, action, mode, at);
            if at > 0 {
                assert(decided_not_to(items[0], action, mode));
                assert forall|i: int| 0 <= i < at - 1 implies decided_not_to(
                    #[trigger] rest[i],
                    action,
                    mode,
                ) by {
                    assert(rest[i] == items[i + 1]);
                }
                assert(rest[at - 1] == items[at]);
                assert(first_to_allow(rest, action, mode, at - 1));
            }
        }
    }
}

/// An `Action` array is decided not to allow an action exactly when every
/// one of its items is.
pub proof fn lemma_scan_denies(items: Seq<JsonValue>, action: Seq<char>, mode: MatchMode)
    ensures
        scan_outcome(items, action, mode) == Ok::<bool, StatementError>(false) <==> forall|i: int|
            0 <= i < items.len() ==> decided_not_to(#[trigger] items[i], action, mode),
    decreases items.len(),
{
    if items.len() > 0 {
        let rest = items.drop_first();
        lemma_scan_denies(rest, action, mode);
        if scan_outcome(items, action, mode) == Ok::<bool, StatementError>(false) {
            assert forall|i: int| 0 <= i < items.len() implies decided_not_to(
                #[trigger] items[i],
                action,
                mode,
            ) by {
                if i > 0 {
                    assert(items[i] == rest[i - 1]);
                }
            }
        }
        if forall|i: int| 0 <= i < items.len() ==> decided_not_to(#[trigger] items[i], action, mode) {
            assert(decided_not_to(items[0], action, mode));
            assert forall|i: int| 0 <= i < rest.len() implies decided_not_to(
                #[trigger] rest[i],
                action,
                mode,
            ) by {
                assert(rest[i] == items[i + 1]);
            }
        }
    }
}

/// With anchored patterns no pattern is ever invalid: a statement fails
/// only for what it lacks or for an `Action` item that is not a string.
pub proof fn lemma_anchored_patterns_are_valid(statement: JsonValue, action: Seq<char>)
    ensures
        statement_outcome(statement, action, MatchMode::Anchored) != Err::<bool, StatementError>(
            StatementError::InvalidPattern,
        ),
{
    match statement.get("Action"@) {
        Some(JsonValue::Array(items)) => {
            lemma_anchored_scan_is_valid(items, action);
        },
        _ => {},
    }
}

/// With anchored patterns no pattern of an `Action` array is ever invalid.
pub proof fn lemma_anchored_scan_is_valid(items: Seq<JsonValue>, action: Seq<char>)
    ensures
        scan_outcome(items, action, MatchMode::Anchored) != Err::<bool, StatementError>(
            StatementError::InvalidPattern,
        ),
    decreases items.len(),
{
    if items.len() > 0 {
        lemma_anchored_scan_is_valid(items.drop_first(), action);
    }
}

} // verus!
