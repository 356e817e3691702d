use which_allowed::pattern::{decide, search, try_pattern_matches, wildcard_to_regex, MatchMode};

#[test]
fn star_becomes_dot_star() {
    assert_eq!(wildcard_to_regex("s3:*"), "s3:.*");
    assert_eq!(wildcard_to_regex("*"), ".*");
    assert_eq!(wildcard_to_regex("**"), ".*.*");
    assert_eq!(wildcard_to_regex("s3:Get*Object*"), "s3:Get.*Object.*");
}

#[test]
fn pattern_without_star_is_unchanged() {
    assert_eq!(wildcard_to_regex("s3:GetObject"), "s3:GetObject");
    assert_eq!(wildcard_to_regex(""), "");
    assert_eq!(wildcard_to_regex("a?b.c"), "a?b.c");
}

#[test]
fn search_finds_a_match_anywhere() {
    assert_eq!(search("s3:Get*", "s3:GetObject"), Some(true));
    assert_eq!(search("Get", "s3:GetObject"), Some(true));
    assert_eq!(search("s3:Put*", "s3:GetObject"), Some(false));
}

#[test]
fn search_refuses_what_is_no_expression() {
    assert_eq!(search("[", "s3:GetObject"), None);
    assert_eq!(search("s3:(Get", "s3:GetObject"), None);
}

#[test]
fn equal_pattern_matches_without_a_search() {
    assert_eq!(try_pattern_matches("[", "[", MatchMode::Search), Some(true));
    assert_eq!(try_pattern_matches("s3:GetObject", "s3:GetObject", MatchMode::Search), Some(true));
}

#[test]
fn unequal_pattern_goes_by_the_search() {
    assert_eq!(try_pattern_matches("s3:*", "s3:GetObject", MatchMode::Search), Some(true));
    assert_eq!(try_pattern_matches("ec2:*", "s3:GetObject", MatchMode::Search), Some(false));
    assert_eq!(try_pattern_matches("[", "s3:GetObject", MatchMode::Search), None);
}

#[test]
fn empty_pattern_matches_every_action() {
    assert_eq!(try_pattern_matches("", "s3:GetObject", MatchMode::Search), Some(true));
}

#[test]
fn decide_prefers_equality() {
    assert_eq!(decide(true, None), Some(true));
    assert_eq!(decide(true, Some(false)), Some(true));
    assert_eq!(decide(false, Some(false)), Some(false));
    assert_eq!(decide(false, Some(true)), Some(true));
    assert_eq!(decide(false, None), None);
}

#[test]
fn search_is_the_default_mode() {
    assert_eq!(MatchMode::default(), MatchMode::Search);
}

#[test]
fn anchored_pattern_is_never_refused() {
    assert_eq!(try_pattern_matches("[", "s3:GetObject", MatchMode::Anchored), Some(false));
    assert_eq!(try_pattern_matches("[", "[", MatchMode::Anchored), Some(true));
    assert_eq!(try_pattern_matches("(*", "(abc", MatchMode::Anchored), Some(true));
}

#[test]
fn anchored_empty_pattern_takes_the_empty_action_only() {
    assert_eq!(try_pattern_matches("", "", MatchMode::Anchored), Some(true));
    assert_eq!(try_pattern_matches("", "s3:GetObject", MatchMode::Anchored), Some(false));
}
