use which_allowed::entity::{suggestions, EntityType};

fn names(list: &[&str]) -> Vec<String> {
    list.iter().map(|s| s.to_string()).collect()
}

#[test]
fn entity_type_reads_its_two_words() {
    assert_eq!(EntityType::from_str("user"), Ok(EntityType::User));
    assert_eq!(EntityType::from_str("role"), Ok(EntityType::Role));
}

#[test]
fn entity_type_refuses_other_words() {
    assert_eq!(
        EntityType::from_str("group"),
        Err("'group' is not a valid entity type. Use 'user' or 'role'.".to_string())
    );
    assert_eq!(
        EntityType::from_str("User"),
        Err("'User' is not a valid entity type. Use 'user' or 'role'.".to_string())
    );
    assert_eq!(
        EntityType::from_str(""),
        Err("'' is not a valid entity type. Use 'user' or 'role'.".to_string())
    );
}

#[test]
fn entity_type_has_a_word() {
    assert_eq!(EntityType::User.name(), "user");
    assert_eq!(EntityType::Role.name(), "role");
}

#[test]
fn entity_type_word_reads_back() {
    assert_eq!(EntityType::from_str(EntityType::User.name()), Ok(EntityType::User));
    assert_eq!(EntityType::from_str(EntityType::Role.name()), Ok(EntityType::Role));
}

#[test]
fn suggestions_hold_the_input() {
    let all = names(&["ReadOnlyAuditor", "Admin", "auditor-backup", "Deploy"]);
    assert_eq!(suggestions(&all, "audit"), names(&["ReadOnlyAuditor", "auditor-backup"]));
    assert_eq!(suggestions(&all, "ploy"), names(&["Deploy"]));
    assert_eq!(suggestions(&all, "xyz"), names(&[]));
}

#[test]
fn suggestions_ignore_case() {
    let all = names(&["ReadOnlyAuditor", "Admin", "auditor-backup"]);
    assert_eq!(suggestions(&all, "AUDITOR"), names(&["ReadOnlyAuditor", "auditor-backup"]));
    assert_eq!(suggestions(&all, "aDmIn"), names(&["Admin"]));
}

#[test]
fn empty_input_suggests_every_name() {
    let all = names(&["b", "a", "c"]);
    assert_eq!(suggestions(&all, ""), all);
    assert_eq!(suggestions(&names(&[]), ""), names(&[]));
}

#[test]
fn suggestions_keep_the_names_as_they_are() {
    let all = names(&["ÄRGER", "Other"]);
    assert_eq!(suggestions(&all, "ärg"), names(&["ÄRGER"]));
}
