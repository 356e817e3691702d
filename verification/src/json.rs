//! A JSON value and the three accessors that policy evaluation reads it with.

use vstd::prelude::*;

use crate::text::str_eq;

verus! {

/// The mathematical JSON value that a [`Json`] stands for.
///
/// A number is kept as its decimal text. An object is the sequence of its
/// entries; looking a key up finds the first entry that carries it.
pub enum JsonValue {
    Null,
    Bool(bool),
    Number(Seq<char>),
    String(Seq<char>),
    Array(Seq<JsonValue>),
    Object(Seq<(Seq<char>, JsonValue)>),
}

/// The value of the first entry of `entries` whose key is `key`.
pub open spec fn lookup(entries: Seq<(Seq<char>, JsonValue)>, key: Seq<char>) -> Option<JsonValue>
    decreases entries.len(),
{
    if entries.len() == 0 {
        None
    } else if entries[0].0 == key {
        Some(entries[0].1)
    } else {
        lookup(entries.drop_first(), key)
    }
}

impl JsonValue {
    /// The member `key` of an object; `None` for a missing key and for every
    /// value that is not an object.
    pub open spec fn get(self, key: Seq<char>) -> Option<JsonValue> {
        match self {
            JsonValue::Object(entries) => lookup(entries, key),
            _ => None,
        }
    }

    /// The text of a string value; `None` for every other value.
    pub open spec fn as_str(self) -> Option<Seq<char>> {
        match self {
            JsonValue::String(text) => Some(text),
            _ => None,
        }
    }

    /// The items of an array value; `None` for every other value.
    pub open spec fn as_array(self) -> Option<Seq<JsonValue>> {
        match self {
            JsonValue::Array(items) => Some(items),
            _ => None,
        }
    }
}

/// A JSON value as the library holds it.
#[derive(Debug, PartialEq, Eq)]
pub enum Json {
    Null,
    Bool(bool),
    /// A number, by its decimal text.
    Number(String),
    String(String),
    Array(Vec<Json>),
    /// An object, by its entries in order.
    Object(Vec<(String, Json)>),
}

/// The values that a sequence of [`Json`] stands for, item by item.
pub open spec fn items_view(items: Seq<Json>) -> Seq<JsonValue> {
    Seq::new(items.len(), |i: int| items[i]@)
}

impl View for Json {
    type V = JsonValue;

    open spec fn view(&self) -> JsonValue
        decreases self,
    {
        match self {
            Json::Null => JsonValue::Null,
            Json::Bool(b) => JsonValue::Bool(*b),
            Json::Number(text) => JsonValue::Number(text@),
            Json::String(text) => JsonValue::String(text@),
            Json::Array(items) => JsonValue::Array(
                Seq::new(
                    items@.len(),
                    |i: int|
                        if 0 <= i < items@.len() {
                            items@[i].view()
                        } else {
                            JsonValue::Null
                        },
                ),
            ),
            Json::Object(entries) => JsonValue::Object(
                Seq::new(
                    entries@.len(),
                    |i: int|
                        (
                            entries@[i].0@,
                            if 0 <= i < entries@.len() {
                                entries@[i].1.view()
                            } else {
                                JsonValue::Null
                            },
                        ),
                ),
            ),
        }
    }
}

/// The entries that a sequence of keyed [`Json`] stands for.
pub open spec fn entries_view(entries: Seq<(String, Json)>) -> Seq<(Seq<char>, JsonValue)> {
    Seq::new(entries.len(), |i: int| (entries[i].0@, entries[i].1@))
}

/// The view of an array is the view of its items, that of an object the view
/// of its entries.
pub proof fn lemma_view_of_items(json: Json)
    ensures
        json matches Json::Array(items) ==> json@ == JsonValue::Array(items_view(items@)),
        json matches Json::Object(entries) ==> json@ == JsonValue::Object(entries_view(entries@)),
{
    match json {
        Json::Array(items) => {
            assert(json@->Array_0 =~= items_view(items@));
        },
        Json::Object(entries) => {
            assert(json@->Object_0 =~= entries_view(entries@));
        },
        _ => {},
    }
}

#[verifier::external_type_specification]
#[verifier::external_body]
pub struct ExValue(serde_json::Value);

#[verifier::external_type_specification]
#[verifier::external_body]
pub struct ExJsonError(serde_json::Error);

/// What a `serde_json::Value` holds: the same tree, a number by the text
/// that it prints as, an object by its entries in the order of its map.
pub uninterp spec fn value_content(value: serde_json::Value) -> JsonValue;

/// What `serde_json::from_str` reads from a text as a `serde_json::Value`,
/// or `None` where the text is not one JSON value.
pub uninterp spec fn parsed(text: Seq<char>) -> Option<JsonValue>;

/// `serde_json::from_str` at the type `serde_json::Value`. Whether it
/// succeeds and what it reads depend on the text alone, so the contract
/// names both.
#[verifier::external_body]
fn parse_value(text: &str) -> (value: Result<serde_json::Value, serde_json::Error>)
    ensures
        value is Ok <==> parsed(text@) is Some,
        value matches Ok(v) ==> parsed(text@) == Some(value_content(v)),
{
    serde_json::from_str::<serde_json::Value>(text)
}

/// Moves a `serde_json::Value` into a [`Json`], variant by variant. The
/// result stands for what the value holds.
#[verifier::external_body]
fn from_value(value: serde_json::Value) -> (json: Json)
    ensures
        json@ == value_content(value),
{
    match value {
        serde_json::Value::Null => Json::Null,
        serde_json::Value::Bool(b) => Json::Bool(b),
        serde_json::Value::Number(n) => Json::Number(n.to_string()),
        serde_json::Value::String(s) => Json::String(s),
        serde_json::Value::Array(items) => Json::Array(items.into_iter().map(from_value).collect()),
        serde_json::Value::Object(entries) => Json::Object(
            entries.into_iter().map(|(key, member)| (key, from_value(member))).collect(),
        ),
    }
}

/// Reads one JSON value from a text; `None` where the text is not one.
pub fn parse(text: &str) -> (json: Option<Json>)
    ensures
        json is Some <==> parsed(text@) is Some,
        json matches Some(j) ==> parsed(text@) == Some(j@),
{
    match parse_value(text) {
        Ok(value) => Some(from_value(value)),
        Err(_) => None,
    }
}

impl Json {
    /// The member `key` of an object.
    pub fn get(&self, key: &str) -> (found: Option<&Json>)
        ensures
            found matches Some(member) ==> self@.get(key@) == Some(member@),
            found is None ==> self@.get(key@) is None,
    {
        match self {
            Json::Object(entries) => {
                let ghost all = self@->Object_0;
                proof {
                    lemma_view_of_items(*self);
                }
                assert(all.skip(0) == all);
                let mut i: usize = 0;
                while i < entries.len()
                    invariant
                        i <= entries.len(),
                        self@ == JsonValue::Object(all),
                        all == entries_view(entries@),
                        lookup(all, key@) == lookup(all.skip(i as int), key@),
                    decreases entries.len() - i,
                {
                    let entry = &entries[i];
                    if str_eq(entry.0.as_str(), key) {
                        return Some(&entry.1);
                    }
                    assert(all.skip(i as int).drop_first() == all.skip(i + 1));
                    i += 1;
                }
                None
            },
            _ => None,
        }
    }

    /// The text of a string value.
    pub fn as_str(&self) -> (text: Option<&str>)
        ensures
            text matches Some(t) ==> self@.as_str() == Some(t@),
            text is None ==> self@.as_str() is None,
    {
        match self {
            Json::String(text) => Some(text.as_str()),
            _ => None,
        }
    }

    /// The items of an array value.
    pub fn as_array(&self) -> (items: Option<&Vec<Json>>)
        ensures
            items matches Some(v) ==> self@.as_array() == Some(items_view(v@)),
            items is None ==> self@.as_array() is None,
    {
        proof {
            lemma_view_of_items(*self);
        }
        match self {
            Json::Array(items) => Some(items),
            _ => None,
        }
    }
}

} // verus!
