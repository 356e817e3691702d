use which_allowed::document::DecodedPolicy;
use which_allowed::json::Json;
use which_allowed::pattern::MatchMode;
use which_allowed::report::{
    allowed_statements, evaluate_policies, none_allowed, policy_statements, EvaluationError,
    MatchResult,
};
use which_allowed::statement::StatementError;

fn text(s: &str) -> Json {
    Json::String(s.to_string())
}

fn statement(effect: &str, action: &str) -> Json {
    Json::Object(vec![
        ("Effect".to_string(), text(effect)),
        ("Action".to_string(), text(action)),
    ])
}

fn document(statements: Vec<Json>) -> Json {
    Json::Object(vec![
        ("Version".to_string(), text("2012-10-17")),
        ("Statement".to_string(), Json::Array(statements)),
    ])
}

fn policy(name: &str, statements: Vec<Json>) -> DecodedPolicy {
    DecodedPolicy { policy_name: name.to_string(), document: document(statements) }
}

#[test]
fn statements_are_the_items_of_the_statement_array() {
    let doc = document(vec![statement("Allow", "s3:*"), statement("Deny", "*")]);
    let expected = vec![statement("Allow", "s3:*"), statement("Deny", "*")];
    assert_eq!(policy_statements(&doc), Ok(&expected));
}

#[test]
fn document_without_statement_is_an_error() {
    let doc = Json::Object(vec![("Version".to_string(), text("2012-10-17"))]);
    assert_eq!(policy_statements(&doc), Err(EvaluationError::MissingStatement));
    assert_eq!(policy_statements(&Json::Null), Err(EvaluationError::MissingStatement));
    assert_eq!(allowed_statements(&doc, "s3:GetObject", MatchMode::Search), Err(EvaluationError::MissingStatement));
}

#[test]
fn statement_that_is_no_array_is_an_error() {
    let doc = Json::Object(vec![("Statement".to_string(), statement("Allow", "*"))]);
    assert_eq!(policy_statements(&doc), Err(EvaluationError::StatementNotArray));
    assert_eq!(allowed_statements(&doc, "s3:GetObject", MatchMode::Search), Err(EvaluationError::StatementNotArray));
}

#[test]
fn allowing_statements_keep_their_order() {
    let doc = document(vec![
        statement("Allow", "s3:Get*"),
        statement("Allow", "ec2:*"),
        statement("Deny", "s3:GetObject"),
        statement("Allow", "s3:GetObject"),
    ]);
    let first = statement("Allow", "s3:Get*");
    let last = statement("Allow", "s3:GetObject");
    assert_eq!(allowed_statements(&doc, "s3:GetObject", MatchMode::Search), Ok(vec![&first, &last]));
    assert_eq!(allowed_statements(&doc, "sqs:SendMessage", MatchMode::Search), Ok(vec![]));
}

#[test]
fn undecidable_statement_fails_the_document() {
    let doc = document(vec![
        statement("Allow", "s3:*"),
        Json::Object(vec![("Action".to_string(), text("*"))]),
        Json::Object(vec![("Effect".to_string(), text("Allow"))]),
    ]);
    assert_eq!(
        allowed_statements(&doc, "s3:GetObject", MatchMode::Search),
        Err(EvaluationError::Statement(StatementError::MissingEffect))
    );
    let doc = document(vec![statement("Allow", "(")]);
    assert_eq!(
        allowed_statements(&doc, "s3:GetObject", MatchMode::Search),
        Err(EvaluationError::Statement(StatementError::InvalidPattern))
    );
}

#[test]
fn policies_without_an_allowing_statement_are_left_out() {
    let policies = vec![
        policy("ReadBucket", vec![statement("Allow", "s3:Get*"), statement("Allow", "s3:List*")]),
        policy("Compute", vec![statement("Allow", "ec2:*")]),
        policy("Empty", vec![]),
        policy("Everything", vec![statement("Deny", "s3:*"), statement("Allow", "*")]),
    ];
    let get = statement("Allow", "s3:Get*");
    let all = statement("Allow", "*");
    let matches = evaluate_policies(&policies, "s3:GetObject", MatchMode::Search).unwrap();
    assert_eq!(
        matches,
        vec![
            MatchResult { policy_name: "ReadBucket", statements: vec![&get] },
            MatchResult { policy_name: "Everything", statements: vec![&all] },
        ]
    );
    assert!(!none_allowed(&matches));
}

#[test]
fn no_match_gives_an_empty_report() {
    let policies = vec![policy("Compute", vec![statement("Allow", "ec2:*")])];
    let matches = evaluate_policies(&policies, "s3:GetObject", MatchMode::Search).unwrap();
    assert!(matches.is_empty());
    assert!(none_allowed(&matches));
    let nothing: Vec<DecodedPolicy> = vec![];
    let matches = evaluate_policies(&nothing, "s3:GetObject", MatchMode::Search).unwrap();
    assert!(none_allowed(&matches));
}

#[test]
fn first_faulty_policy_fails_the_evaluation() {
    let policies = vec![
        policy("Fine", vec![statement("Allow", "s3:*")]),
        DecodedPolicy { policy_name: "NoArray".to_string(), document: Json::Object(vec![(
            "Statement".to_string(),
            text("none"),
        )]) },
        DecodedPolicy { policy_name: "Nothing".to_string(), document: Json::Null },
    ];
    assert_eq!(
        evaluate_policies(&policies, "s3:GetObject", MatchMode::Search),
        Err(EvaluationError::StatementNotArray)
    );
}

#[test]
fn anchored_report_leaves_out_what_only_a_search_finds() {
    let policies = vec![
        policy("Tagging", vec![statement("Allow", "s3:GetObject")]),
        policy("Read", vec![statement("Allow", "s3:Get*")]),
    ];
    let read = statement("Allow", "s3:Get*");
    let tagging = statement("Allow", "s3:GetObject");
    assert_eq!(
        evaluate_policies(&policies, "s3:GetObjectTagging", MatchMode::Anchored),
        Ok(vec![MatchResult { policy_name: "Read", statements: vec![&read] }])
    );
    assert_eq!(
        evaluate_policies(&policies, "s3:GetObjectTagging", MatchMode::Search),
        Ok(vec![
            MatchResult { policy_name: "Tagging", statements: vec![&tagging] },
            MatchResult { policy_name: "Read", statements: vec![&read] },
        ])
    );
}
