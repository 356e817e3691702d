//! The principal that is inspected: a user or a role, by name.

use vstd::prelude::*;
use vstd::string::StringExecFns;

use crate::text::{contains, lowercase, occurs_in, str_eq, texts, to_lowercase};

verus! {

/// The two kinds of principal that carry policies.
#[derive(Clone, Copy, Debug, PartialEq, Eq, Structural)]
pub enum EntityType {
    User,
    Role,
}

/// A principal: its kind and its name.
#[derive(Debug, PartialEq, Eq)]
pub struct Entity {
    pub entity_type: EntityType,
    pub name: String,
}

/// The word that names an entity type.
pub open spec fn entity_type_name(entity_type: EntityType) -> Seq<char> {
    match entity_type {
        EntityType::User => "user"@,
        EntityType::Role => "role"@,
    }
}

/// The entity type that a word names, if it names one.
pub open spec fn entity_type_named(word: Seq<char>) -> Option<EntityType> {
    if word == "user"@ {
        Some(EntityType::User)
    } else if word == "role"@ {
        Some(EntityType::Role)
    } else {
        None
    }
}

/// What is said of a word that names no entity type.
pub open spec fn invalid_entity_type(word: Seq<char>) -> Seq<char> {
    "'"@ + word + "' is not a valid entity type. Use 'user' or 'role'."@
}

impl EntityType {
    /// Reads an entity type from its word: `user` or `role`, in lower case.
    /// Any other word gives a message that quotes it.
    pub fn from_str(word: &str) -> (parsed: Result<EntityType, String>)
        ensures
            parsed matches Ok(entity_type) ==> entity_type_named(word@) == Some(entity_type),
            parsed matches Err(message) ==> entity_type_named(word@) is None && message@
                == invalid_entity_type(word@),
    {
        if str_eq(word, "user") {
            Ok(EntityType::User)
        } else if str_eq(word, "role") {
            Ok(EntityType::Role)
        } else {
            let mut message = String::from_str("'");
            message.append(word);
            message.append("' is not a valid entity type. Use 'user' or 'role'.");
            Err(message)
        }
    }

    /// The word for this entity type.
    pub fn name(&self) -> (word: &'static str)
        ensures
            word@ == entity_type_name(*self),
    {
        match self {
            EntityType::User => "user",
            EntityType::Role => "role",
        }
    }
}

/// The word of an entity type reads back as that entity type.
pub proof fn lemma_name_reads_back(entity_type: EntityType)
    ensures
        entity_type_named(entity_type_name(entity_type)) == Some(entity_type),
{
    reveal_strlit("user");
    reveal_strlit("role");
    assert("role"@[0] != "user"@[0]);
}

/// Whether a name is offered for what has been typed so far: the input
/// occurs in the name, both taken in lower case.
pub open spec fn suggests(name: Seq<char>, input: Seq<char>) -> bool {
    occurs_in(lowercase(input), lowercase(name))
}

/// The names among `names` that are offered for `input`, in order.
pub open spec fn suggested(names: Seq<Seq<char>>, input: Seq<char>) -> Seq<Seq<char>>
    decreases names.len(),
{
    if names.len() == 0 {
        Seq::empty()
    } else if suggests(names.last(), input) {
        suggested(names.drop_last(), input).push(names.last())
    } else {
        suggested(names.drop_last(), input)
    }
}

/// The entity names to offer while a name is being typed: those that hold
/// the input, without regard to case, in the order of `names`.
pub fn suggestions(names: &Vec<String>, input: &str) -> (offered: Vec<String>)
    ensures
        texts(offered@) == suggested(texts(names@), input@),
{
    let ghost all = texts(names@);
    let needle = to_lowercase(input);
    let mut offered: Vec<String> = Vec::new();
    assert(texts(offered@) =~= Seq::empty());
    let mut i: usize = 0;
    while i < names.len()
        invariant
            i <= names.len(),
            all == texts(names@),
            needle@ == lowercase(input@),
            texts(offered@) == suggested(all.take(i as int), input@),
        decreases names.len() - i,
    {
        let ghost before = texts(offered@);
        assert(all.take(i + 1).drop_last() == all.take(i as int));
        assert(all.take(i + 1).last() == names@[i as int]@);
        let lowered = to_lowercase(names[i].as_str());
        if contains(lowered.as_str(), needle.as_str()) {
            let name = names[i].clone();
            offered.push(name);
            assert(texts(offered@) =~= before.push(name@));
        }
        i += 1;
    }
    assert(all.take(names.len() as int) == all);
    offered
}

} // verus!
