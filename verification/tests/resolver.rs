use which_allowed::document::PolicyDocument;
use which_allowed::entity::{Entity, EntityType};
use which_allowed::policy::AttachedPolicy;
use which_allowed::resolver::{Event, Owner, Request, ResolveError, Resolver, Stage, Step};

fn s(text: &str) -> String {
    text.to_string()
}

fn strings(list: &[&str]) -> Vec<String> {
    list.iter().map(|t| t.to_string()).collect()
}

fn attached(name: &str, arn: &str) -> AttachedPolicy {
    AttachedPolicy { policy_name: Some(s(name)), policy_arn: Some(s(arn)) }
}

fn pair(name: &str, document: &str) -> PolicyDocument {
    PolicyDocument { policy_name: s(name), document: s(document) }
}

fn start(entity_type: EntityType, name: &str) -> (Resolver, Step) {
    Resolver::start(Entity { entity_type, name: s(name) })
}

fn managed(arn: &str) -> Request {
    Request::ManagedDocument { policy_arn: Some(s(arn)) }
}

fn inline(owner: Owner, name: &str, policy_name: &str) -> Request {
    Request::InlineDocument { owner, name: s(name), policy_name: s(policy_name) }
}

#[test]
fn role_resolution_walks_managed_then_inline() {
    let (resolver, step) = start(EntityType::Role, "Auditor");
    assert_eq!(resolver.stage(), Stage::ManagedList);
    assert_eq!(step, Step::List(Request::AttachedPolicies { owner: Owner::Role, name: s("Auditor") }));

    let (resolver, step) = resolver
        .step(Event::AttachedPolicies(vec![attached("M1", "arn:1"), attached("M2", "arn:2")]))
        .unwrap();
    assert_eq!(resolver.stage(), Stage::ManagedDocuments);
    assert_eq!(step, Step::Fetch(vec![managed("arn:1"), managed("arn:2")]));

    let (resolver, step) = resolver.step(Event::Documents(strings(&["d1", "d2"]))).unwrap();
    assert_eq!(resolver.stage(), Stage::InlineList);
    assert_eq!(step, Step::List(Request::PolicyNames { owner: Owner::Role, name: s("Auditor") }));

    let (resolver, step) = resolver.step(Event::Names(strings(&["I1"]))).unwrap();
    assert_eq!(resolver.stage(), Stage::InlineDocuments);
    assert_eq!(step, Step::Fetch(vec![inline(Owner::Role, "Auditor", "I1")]));

    let (resolver, step) = resolver.step(Event::Documents(strings(&["d3"]))).unwrap();
    assert_eq!(resolver.stage(), Stage::Finished);
    assert_eq!(step, Step::Done(vec![pair("M1", "d1"), pair("M2", "d2"), pair("I1", "d3")]));
}

#[test]
fn user_without_groups_has_two_pairs() {
    let (resolver, step) = start(EntityType::User, "alice");
    assert_eq!(step, Step::List(Request::AttachedPolicies { owner: Owner::User, name: s("alice") }));
    let (resolver, step) =
        resolver.step(Event::AttachedPolicies(vec![attached("Managed", "arn:m")])).unwrap();
    assert_eq!(step, Step::Fetch(vec![managed("arn:m")]));
    let (resolver, step) = resolver.step(Event::Documents(strings(&["managed-doc"]))).unwrap();
    assert_eq!(step, Step::List(Request::PolicyNames { owner: Owner::User, name: s("alice") }));
    let (resolver, step) = resolver.step(Event::Names(strings(&["Inline"]))).unwrap();
    assert_eq!(step, Step::Fetch(vec![inline(Owner::User, "alice", "Inline")]));
    let (resolver, step) = resolver.step(Event::Documents(strings(&["inline-doc"]))).unwrap();
    assert_eq!(resolver.stage(), Stage::GroupList);
    assert_eq!(step, Step::List(Request::GroupsForUser { user_name: s("alice") }));
    let (resolver, step) = resolver.step(Event::Names(vec![])).unwrap();
    assert_eq!(resolver.stage(), Stage::GroupManagedDocuments);
    assert_eq!(step, Step::Fetch(vec![]));
    let (resolver, step) = resolver.step(Event::Documents(vec![])).unwrap();
    assert_eq!(resolver.stage(), Stage::Finished);
    match step {
        Step::Done(pairs) => {
            assert_eq!(pairs.len(), 2);
            assert_eq!(pairs[0], pair("Managed", "managed-doc"));
            assert_eq!(pairs[1], pair("Inline", "inline-doc"));
        }
        other => panic!("not done: {:?}", other),
    }
}

#[test]
fn user_resolution_walks_its_groups() {
    let (resolver, _) = start(EntityType::User, "bob");
    let (resolver, step) = resolver.step(Event::AttachedPolicies(vec![])).unwrap();
    assert_eq!(step, Step::Fetch(vec![]));
    let (resolver, _) = resolver.step(Event::Documents(vec![])).unwrap();
    let (resolver, step) = resolver.step(Event::Names(vec![])).unwrap();
    assert_eq!(step, Step::Fetch(vec![]));
    let (resolver, _) = resolver.step(Event::Documents(vec![])).unwrap();

    let (resolver, step) = resolver.step(Event::Names(strings(&["dev", "ops"]))).unwrap();
    assert_eq!(resolver.stage(), Stage::GroupManagedList(0));
    assert_eq!(step, Step::List(Request::AttachedPolicies { owner: Owner::Group, name: s("dev") }));

    let (resolver, step) =
        resolver.step(Event::AttachedPolicies(vec![attached("DevManaged", "arn:dev")])).unwrap();
    assert_eq!(resolver.stage(), Stage::GroupManagedList(1));
    assert_eq!(step, Step::List(Request::AttachedPolicies { owner: Owner::Group, name: s("ops") }));

    let (resolver, step) = resolver
        .step(Event::AttachedPolicies(vec![attached("Ops1", "arn:o1"), attached("Ops2", "arn:o2")]))
        .unwrap();
    assert_eq!(resolver.stage(), Stage::GroupManagedDocuments);
    assert_eq!(step, Step::Fetch(vec![managed("arn:dev"), managed("arn:o1"), managed("arn:o2")]));

    let (resolver, step) = resolver.step(Event::Documents(strings(&["gd", "go1", "go2"]))).unwrap();
    assert_eq!(resolver.stage(), Stage::GroupInlineList(0));
    assert_eq!(step, Step::List(Request::PolicyNames { owner: Owner::Group, name: s("dev") }));

    let (resolver, step) = resolver.step(Event::Names(strings(&["DevInline"]))).unwrap();
    assert_eq!(resolver.stage(), Stage::GroupInlineDocuments(0));
    assert_eq!(step, Step::Fetch(vec![inline(Owner::Group, "dev", "DevInline")]));

    let (resolver, step) = resolver.step(Event::Documents(strings(&["gi"]))).unwrap();
    assert_eq!(resolver.stage(), Stage::GroupInlineList(1));
    assert_eq!(step, Step::List(Request::PolicyNames { owner: Owner::Group, name: s("ops") }));

    let (resolver, step) = resolver.step(Event::Names(vec![])).unwrap();
    assert_eq!(step, Step::Fetch(vec![]));
    let (resolver, step) = resolver.step(Event::Documents(vec![])).unwrap();
    assert_eq!(resolver.stage(), Stage::Finished);
    assert_eq!(
        step,
        Step::Done(vec![
            pair("DevManaged", "gd"),
            pair("Ops1", "go1"),
            pair("Ops2", "go2"),
            pair("DevInline", "gi"),
        ])
    );
}

#[test]
fn all_four_sources_come_in_order() {
    let (resolver, _) = start(EntityType::User, "carol");
    let (resolver, _) = resolver.step(Event::AttachedPolicies(vec![attached("UM", "arn:um")])).unwrap();
    let (resolver, _) = resolver.step(Event::Documents(strings(&["um"]))).unwrap();
    let (resolver, _) = resolver.step(Event::Names(strings(&["UI"]))).unwrap();
    let (resolver, _) = resolver.step(Event::Documents(strings(&["ui"]))).unwrap();
    let (resolver, _) = resolver.step(Event::Names(strings(&["g"]))).unwrap();
    let (resolver, _) = resolver.step(Event::AttachedPolicies(vec![attached("GM", "arn:gm")])).unwrap();
    let (resolver, _) = resolver.step(Event::Documents(strings(&["gm"]))).unwrap();
    let (resolver, _) = resolver.step(Event::Names(strings(&["GI"]))).unwrap();
    let (_, step) = resolver.step(Event::Documents(strings(&["gi"]))).unwrap();
    assert_eq!(
        step,
        Step::Done(vec![pair("UM", "um"), pair("UI", "ui"), pair("GM", "gm"), pair("GI", "gi")])
    );
}

#[test]
fn managed_policy_without_arn_is_still_asked_for() {
    let (resolver, _) = start(EntityType::Role, "r");
    let unnamed_arn = AttachedPolicy { policy_name: Some(s("NoArn")), policy_arn: None };
    let (_, step) = resolver.step(Event::AttachedPolicies(vec![unnamed_arn])).unwrap();
    assert_eq!(step, Step::Fetch(vec![Request::ManagedDocument { policy_arn: None }]));
}

#[test]
fn event_of_the_wrong_kind_is_refused() {
    let (resolver, _) = start(EntityType::Role, "r");
    assert_eq!(resolver.step(Event::Names(vec![])).unwrap_err(), ResolveError::UnexpectedEvent);
    let (resolver, _) = start(EntityType::Role, "r");
    assert_eq!(resolver.step(Event::Documents(vec![])).unwrap_err(), ResolveError::UnexpectedEvent);
    let (resolver, _) = start(EntityType::Role, "r");
    let (resolver, _) = resolver.step(Event::AttachedPolicies(vec![])).unwrap();
    assert_eq!(
        resolver.step(Event::AttachedPolicies(vec![])).unwrap_err(),
        ResolveError::UnexpectedEvent
    );
}

#[test]
fn managed_policy_without_name_is_refused() {
    let (resolver, _) = start(EntityType::Role, "r");
    let nameless = AttachedPolicy { policy_name: None, policy_arn: Some(s("arn")) };
    assert_eq!(
        resolver.step(Event::AttachedPolicies(vec![attached("A", "arn:a"), nameless])).unwrap_err(),
        ResolveError::MissingPolicyName
    );
}

#[test]
fn wrong_number_of_documents_is_refused() {
    let (resolver, _) = start(EntityType::Role, "r");
    let (resolver, _) = resolver.step(Event::AttachedPolicies(vec![attached("A", "arn:a")])).unwrap();
    assert_eq!(
        resolver.step(Event::Documents(strings(&["one", "two"]))).unwrap_err(),
        ResolveError::DocumentCount
    );
    let (resolver, _) = start(EntityType::Role, "r");
    let (resolver, _) = resolver.step(Event::AttachedPolicies(vec![attached("A", "arn:a")])).unwrap();
    assert_eq!(resolver.step(Event::Documents(vec![])).unwrap_err(), ResolveError::DocumentCount);
}

#[test]
fn nothing_follows_the_end() {
    let (resolver, _) = start(EntityType::Role, "r");
    let (resolver, _) = resolver.step(Event::AttachedPolicies(vec![])).unwrap();
    let (resolver, _) = resolver.step(Event::Documents(vec![])).unwrap();
    let (resolver, _) = resolver.step(Event::Names(vec![])).unwrap();
    let (resolver, step) = resolver.step(Event::Documents(vec![])).unwrap();
    assert_eq!(step, Step::Done(vec![]));
    assert_eq!(resolver.step(Event::Documents(vec![])).unwrap_err(), ResolveError::Finished);
}
