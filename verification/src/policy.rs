//! Policies as the service lists them, and the pairing of policy names with
//! policy documents.

use vstd::prelude::*;
use vstd::string::StringExecFns;

use crate::document::{documents_view, PolicyDocument, PolicyDocumentView};
use crate::text::texts;

verus! {

/// A managed policy as it is listed for an entity or a group. The service
/// may leave either field out.
#[derive(Debug, PartialEq, Eq)]
pub struct AttachedPolicy {
    pub policy_name: Option<String>,
    pub policy_arn: Option<String>,
}

/// What an [`AttachedPolicy`] stands for.
pub struct AttachedPolicyView {
    pub policy_name: Option<Seq<char>>,
    pub policy_arn: Option<Seq<char>>,
}

/// The text of a string that may be missing.
pub open spec fn optional_text(text: Option<String>) -> Option<Seq<char>> {
    match text {
        Some(t) => Some(t@),
        None => None,
    }
}

impl View for AttachedPolicy {
    type V = AttachedPolicyView;

    open spec fn view(&self) -> AttachedPolicyView {
        AttachedPolicyView {
            policy_name: optional_text(self.policy_name),
            policy_arn: optional_text(self.policy_arn),
        }
    }
}

/// The views of a sequence of attached policies.
pub open spec fn attached_view(policies: Seq<AttachedPolicy>) -> Seq<AttachedPolicyView> {
    Seq::new(policies.len(), |i: int| policies[i]@)
}

/// Whether every policy of `policies` has a name.
pub open spec fn all_named(policies: Seq<AttachedPolicyView>) -> bool {
    forall|i: int| 0 <= i < policies.len() ==> (#[trigger] policies[i]).policy_name is Some
}

/// The names of `policies`, in order. It is meant for policies that all have
/// one.
pub open spec fn names_of(policies: Seq<AttachedPolicyView>) -> Seq<Seq<char>> {
    Seq::new(policies.len(), |i: int| policies[i].policy_name.unwrap())
}

/// The names of the attached policies, in order; `None` where one of them
/// has no name.
pub fn attached_policy_names(policies: &Vec<AttachedPolicy>) -> (names: Option<Vec<String>>)
    ensures
        names is Some <==> all_named(attached_view(policies@)),
        names matches Some(found) ==> texts(found@) == names_of(attached_view(policies@)),
{
    let ghost all = attached_view(policies@);
    let mut found: Vec<String> = Vec::new();
    let mut i: usize = 0;
    while i < policies.len()
        invariant
            i <= policies.len(),
            all == attached_view(policies@),
            found@.len() == i,
            forall|k: int| 0 <= k < i ==> (#[trigger] all[k]).policy_name == Some(found@[k]@),
        decreases policies.len() - i,
    {
        match &policies[i].policy_name {
            None => {
                assert(all[i as int].policy_name is None);
                return None;
            },
            Some(name) => {
                found.push(name.clone());
            },
        }
        i += 1;
    }
    assert(texts(found@) =~= names_of(all));
    Some(found)
}

/// The name that stands in for a policy that was listed without one.
pub open spec fn missing_policy_name() -> Seq<char> {
    "Missing Policy Name"@
}

/// The names of a listing with the stand-in name wherever a name is missing.
pub open spec fn listed_names(names: Seq<Option<String>>) -> Seq<Seq<char>> {
    Seq::new(
        names.len(),
        |i: int|
            match names[i] {
                Some(name) => name@,
                None => missing_policy_name(),
            },
    )
}

/// The names of a policy listing, in order, with `Missing Policy Name` for
/// each policy that was listed without a name.
pub fn policy_names_or_missing(names: &Vec<Option<String>>) -> (listed: Vec<String>)
    ensures
        texts(listed@) == listed_names(names@),
{
    let mut listed: Vec<String> = Vec::new();
    let mut i: usize = 0;
    while i < names.len()
        invariant
            i <= names.len(),
            listed@.len() == i,
            forall|k: int| 0 <= k < i ==> (#[trigger] listed@[k])@ == listed_names(names@)[k],
        decreases names.len() - i,
    {
        let name = match &names[i] {
            Some(name) => name.clone(),
            None => String::from_str("Missing Policy Name"),
        };
        listed.push(name);
        i += 1;
    }
    assert(texts(listed@) =~= listed_names(names@));
    listed
}

/// Each name with the document at the same place.
pub open spec fn paired(names: Seq<Seq<char>>, documents: Seq<Seq<char>>) -> Seq<
    PolicyDocumentView,
> {
    Seq::new(
        names.len(),
        |i: int| PolicyDocumentView { policy_name: names[i], document: documents[i] },
    )
}

/// Pairs each policy name with the document at the same index. There have to
/// be as many documents as names.
pub fn pair_policies(names: &Vec<String>, documents: &Vec<String>) -> (pairs: Vec<PolicyDocument>)
    requires
        names@.len() == documents@.len(),
    ensures
        documents_view(pairs@) == paired(texts(names@), texts(documents@)),
        pairs@.len() == names@.len(),
{
    let mut pairs: Vec<PolicyDocument> = Vec::new();
    let mut i: usize = 0;
    while i < names.len()
        invariant
            i <= names.len(),
            names@.len() == documents@.len(),
            pairs@.len() == i,
            forall|k: int|
                0 <= k < i ==> (#[trigger] pairs@[k])@ == paired(
                    texts(names@),
                    texts(documents@),
                )[k],
        decreases names.len() - i,
    {
        pairs.push(
            PolicyDocument { policy_name: names[i].clone(), document: documents[i].clone() },
        );
        i += 1;
    }
    assert(documents_view(pairs@) =~= paired(texts(names@), texts(documents@)));
    pairs
}

} // verus!
