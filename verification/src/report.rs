//! Which policies allow an action, and by which of their statements.

use vstd::prelude::*;

use crate::document::{policies_view, DecodedPolicy, DecodedPolicyView};
use crate::json::{items_view, Json, JsonValue};
use crate::pattern::MatchMode;
use crate::statement::{evaluate_statement, statement_outcome, StatementError};

verus! {

/// Why the policies cannot be evaluated.
#[derive(Clone, Copy, Debug, PartialEq, Eq, Structural)]
pub enum EvaluationError {
    /// A document has no `Statement` member.
    MissingStatement,
    /// The `Statement` member of a document is not an array.
    StatementNotArray,
    /// A statement cannot be decided.
    Statement(StatementError),
}

/// A policy that allows the action, with the statements that do so, in the
/// order of its document. The list is never empty.
#[derive(Debug, PartialEq, Eq)]
pub struct MatchResult<'a> {
    pub policy_name: &'a str,
    pub statements: Vec<&'a Json>,
}

/// What a [`MatchResult`] stands for.
pub struct MatchResultView {
    pub policy_name: Seq<char>,
    pub statements: Seq<JsonValue>,
}

impl<'a> View for MatchResult<'a> {
    type V = MatchResultView;

    open spec fn view(&self) -> MatchResultView {
        MatchResultView {
            policy_name: self.policy_name@,
            statements: Seq::new(self.statements@.len(), |i: int| self.statements@[i]@),
        }
    }
}

/// The views of a sequence of match results.
pub open spec fn results_view(results: Seq<MatchResult>) -> Seq<MatchResultView> {
    Seq::new(results.len(), |i: int| results[i]@)
}

/// The views of a sequence of borrowed JSON values.
pub open spec fn borrowed_view(items: Seq<&Json>) -> Seq<JsonValue> {
    Seq::new(items.len(), |i: int| items[i]@)
}

/// The statements of a policy document: the items of its `Statement` array.
pub open spec fn statements_of(document: JsonValue) -> Result<Seq<JsonValue>, EvaluationError> {
    match document.get("Statement"@) {
        None => Err(EvaluationError::MissingStatement),
        Some(member) => match member.as_array() {
            None => Err(EvaluationError::StatementNotArray),
            Some(statements) => Ok(statements),
        },
    }
}

/// The statements among `statements` that allow `action`, in order; or the
/// error of the first statement that cannot be decided.
pub open spec fn allowing(statements: Seq<JsonValue>, action: Seq<char>, mode: MatchMode) -> Result<
    Seq<JsonValue>,
    EvaluationError,
>
    decreases statements.len(),
{
    if statements.len() == 0 {
        Ok(Seq::empty())
    } else {
        match allowing(statements.drop_last(), action, mode) {
            Err(error) => Err(error),
            Ok(before) => match statement_outcome(statements.last(), action, mode) {
                Err(error) => Err(EvaluationError::Statement(error)),
                Ok(true) => Ok(before.push(statements.last())),
                Ok(false) => Ok(before),
            },
        }
    }
}

/// The statements of `document` that allow `action`.
pub open spec fn allowing_statements(
    document: JsonValue,
    action: Seq<char>,
    mode: MatchMode,
) -> Result<Seq<JsonValue>, EvaluationError> {
    match statements_of(document) {
        Err(error) => Err(error),
        Ok(statements) => allowing(statements, action, mode),
    }
}

/// The policies among `policies` that allow `action`, each with its allowing
/// statements, in order; or the error of the first policy that cannot be
/// evaluated. A policy without an allowing statement is left out.
pub open spec fn matching_policies(
    policies: Seq<DecodedPolicyView>,
    action: Seq<char>,
    mode: MatchMode,
) -> Result<Seq<MatchResultView>, EvaluationError>
    decreases policies.len(),
{
    if policies.len() == 0 {
        Ok(Seq::empty())
    } else {
        match matching_policies(policies.drop_last(), action, mode) {
            Err(error) => Err(error),
            Ok(before) => match allowing_statements(policies.last().document, action, mode) {
                Err(error) => Err(error),
                Ok(statements) => if statements.len() == 0 {
                    Ok(before)
                } else {
                    Ok(
                        before.push(
                            MatchResultView {
                                policy_name: policies.last().policy_name,
                                statements,
                            },
                        ),
                    )
                },
            },
        }
    }
}

/// Where every statement can be decided, the allowing statements are those
/// that allow the action, in the order of the document; where one cannot,
/// there are none to speak of.
pub proof fn lemma_allowing_keeps_what_allows(
    statements: Seq<JsonValue>,
    action: Seq<char>,
    mode: MatchMode,
)
    ensures
        allowing(statements, action, mode) is Ok <==> forall|i: int|
            0 <= i < statements.len() ==> statement_outcome(
                #[trigger] statements[i],
                action,
                mode,
            ) is Ok,
        allowing(statements, action, mode) matches Ok(found) ==> found == statements.filter(
            |statement: JsonValue|
                statement_outcome(statement, action, mode) == Ok::<bool, StatementError>(true),
        ),
    decreases statements.len(),
{
    reveal(Seq::filter);
    if statements.len() > 0 {
        let before = statements.drop_last();
        lemma_allowing_keeps_what_allows(before, action, mode);
        if allowing(statements, action, mode) is Ok {
            assert forall|i: int| 0 <= i < statements.len() implies statement_outcome(
                #[trigger] statements[i],
                action,
                mode,
            ) is Ok by {
                if i < before.len() {
                    assert(statements[i] == before[i]);
                }
            }
        }
        if forall|i: int|
            0 <= i < statements.len() ==> statement_outcome(
                #[trigger] statements[i],
                action,
                mode,
            ) is Ok {
            assert forall|i: int| 0 <= i < before.len() implies statement_outcome(
                #[trigger] before[i],
                action,
                mode,
            ) is Ok by {
                assert(before[i] == statements[i]);
            }
            assert(statement_outcome(statements[statements.len() - 1], action, mode) is Ok);
        }
    }
}

/// Once a front part of the statements has failed, every longer front part
/// fails with the same error.
pub proof fn lemma_allowing_failure_stays(
    statements: Seq<JsonValue>,
    action: Seq<char>,
    mode: MatchMode,
    failed: int,
    error: EvaluationError,
)
    requires
        0 <= failed <= statements.len(),
        allowing(statements.take(failed), action, mode) == Err::<Seq<JsonValue>, EvaluationError>(
            error,
        ),
    ensures
        allowing(statements, action, mode) == Err::<Seq<JsonValue>, EvaluationError>(error),
    decreases statements.len() - failed,
{
    if failed < statements.len() {
        assert(statements.take(failed + 1).drop_last() == statements.take(failed));
        lemma_allowing_failure_stays(statements, action, mode, failed + 1, error);
    } else {
        assert(statements.take(failed) == statements);
    }
}

/// Once a front part of the policies has failed, every longer front part
/// fails with the same error.
pub proof fn lemma_matching_failure_stays(
    policies: Seq<DecodedPolicyView>,
    action: Seq<char>,
    mode: MatchMode,
    failed: int,
    error: EvaluationError,
)
    requires
        0 <= failed <= policies.len(),
        matching_policies(policies.take(failed), action, mode) == Err::<
            Seq<MatchResultView>,
            EvaluationError,
        >(error),
    ensures
        matching_policies(policies, action, mode) == Err::<Seq<MatchResultView>, EvaluationError>(
            error,
        ),
    decreases policies.len() - failed,
{
    if failed < policies.len() {
        assert(policies.take(failed + 1).drop_last() == policies.take(failed));
        lemma_matching_failure_stays(policies, action, mode, failed + 1, error);
    } else {
        assert(policies.take(failed) == policies);
    }
}

/// The statements of a policy document.
pub fn policy_statements(document: &Json) -> (statements: Result<&Vec<Json>, EvaluationError>)
    ensures
        statements matches Ok(found) ==> statements_of(document@) == Ok::<
            Seq<JsonValue>,
            EvaluationError,
        >(items_view(found@)),
        statements matches Err(error) ==> statements_of(document@) == Err::<
            Seq<JsonValue>,
            EvaluationError,
        >(error),
{
    match document.get("Statement") {
        None => Err(EvaluationError::MissingStatement),
        Some(member) => match member.as_array() {
            None => Err(EvaluationError::StatementNotArray),
            Some(statements) => Ok(statements),
        },
    }
}

/// The statements of `document` that allow `action_name`, in order.
///
/// It fails where the document has no `Statement` array, and with the error
/// of the first statement that cannot be decided.
pub fn allowed_statements<'a>(document: &'a Json, action_name: &str, mode: MatchMode) -> (result:
    Result<Vec<&'a Json>, EvaluationError>)
    ensures
        result matches Ok(found) ==> allowing_statements(document@, action_name@, mode) == Ok::<
            Seq<JsonValue>,
            EvaluationError,
        >(borrowed_view(found@)),
        result matches Err(error) ==> allowing_statements(document@, action_name@, mode) == Err::<
            Seq<JsonValue>,
            EvaluationError,
        >(error),
{
    let statements = match policy_statements(document) {
        Err(error) => {
            return Err(error);
        },
        Ok(statements) => statements,
    };
    let ghost all = items_view(statements@);
    let mut found: Vec<&'a Json> = Vec::new();
    assert(borrowed_view(found@) =~= Seq::empty());
    let mut i: usize = 0;
    while i < statements.len()
        invariant
            i <= statements.len(),
            all == items_view(statements@),
            statements_of(document@) == Ok::<Seq<JsonValue>, EvaluationError>(all),
            allowing(all.take(i as int), action_name@, mode) == Ok::<
                Seq<JsonValue>,
                EvaluationError,
            >(borrowed_view(found@)),
        decreases statements.len() - i,
    {
        let ghost before = borrowed_view(found@);
        assert(all.take(i + 1).drop_last() == all.take(i as int));
        assert(all.take(i + 1).last() == statements@[i as int]@);
        let statement = &statements[i];
        match evaluate_statement(statement, action_name, mode) {
            Err(error) => {
                proof {
                    lemma_allowing_failure_stays(
                        all,
                        action_name@,
                        mode,
                        i + 1,
                        EvaluationError::Statement(error),
                    );
                }
                return Err(EvaluationError::Statement(error));
            },
            Ok(true) => {
                found.push(statement);
                assert(borrowed_view(found@) =~= before.push(statement@));
            },
            Ok(false) => {},
        }
        i += 1;
    }
    assert(all.take(statements.len() as int) == all);
    Ok(found)
}

/// The policies that allow `action_name`, each with the statements that do.
///
/// A policy appears in the result exactly when at least one of its
/// statements allows the action; the result is empty when no policy allows
/// it. It fails with the error of the first policy that cannot be evaluated.
pub fn evaluate_policies<'a>(
    policies: &'a Vec<DecodedPolicy>,
    action_name: &str,
    mode: MatchMode,
) -> (result: Result<Vec<MatchResult<'a>>, EvaluationError>)
    ensures
        result matches Ok(matches) ==> matching_policies(
            policies_view(policies@),
            action_name@,
            mode,
        ) == Ok::<Seq<MatchResultView>, EvaluationError>(results_view(matches@)),
        result matches Err(error) ==> matching_policies(
            policies_view(policies@),
            action_name@,
            mode,
        ) == Err::<Seq<MatchResultView>, EvaluationError>(error),
{
    let ghost all = policies_view(policies@);
    let mut matches: Vec<MatchResult<'a>> = Vec::new();
    assert(results_view(matches@) =~= Seq::empty());
    let mut i: usize = 0;
    while i < policies.len()
        invariant
            i <= policies.len(),
            all == policies_view(policies@),
            matching_policies(all.take(i as int), action_name@, mode) == Ok::<
                Seq<MatchResultView>,
                EvaluationError,
            >(results_view(matches@)),
        decreases policies.len() - i,
    {
        let ghost before = results_view(matches@);
        assert(all.take(i + 1).drop_last() == all.take(i as int));
        assert(all.take(i + 1).last() == policies@[i as int]@);
        let policy = &policies[i];
        match allowed_statements(&policy.document, action_name, mode) {
            Err(error) => {
                proof {
                    lemma_matching_failure_stays(all, action_name@, mode, i + 1, error);
                }
                return Err(error);
            },
            Ok(statements) => {
                if statements.len() > 0 {
                    let entry = MatchResult {
                        policy_name: policy.policy_name.as_str(),
                        statements,
                    };
                    assert(entry@.statements =~= borrowed_view(statements@));
                    matches.push(entry);
                    assert(results_view(matches@) =~= before.push(entry@));
                }
            },
        }
        i += 1;
    }
    assert(all.take(policies.len() as int) == all);
    Ok(matches)
}

/// Whether no policy allows the action: the case in which the report is the
/// one line that says so.
pub fn none_allowed(matches: &Vec<MatchResult>) -> (none: bool)
    ensures
        none == (matches@.len() == 0),
{
    matches.len() == 0
}

} // verus!
