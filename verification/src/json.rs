//! The boundary to `serde_json`.
//!
//! JSON values stay `serde_json::Value`s at run time, and `serde_json` parses,
//! edits and writes them. Contracts speak of the document that a value holds,
//! given as the ghost type [`Json`]. Every contract in this file is believed of
//! `serde_json`, not proved; the rest of the crate is proved from them.
//!
//! The contracts are claims about `serde_json` with its default features, where
//! an object keeps its members by key and writes them in the order of the keys,
//! so that the text of an object depends on its members alone.

use vstd::prelude::*;

verus! {

/// A JSON document as a mathematical value.
pub ghost enum Json {
    Null,
    Bool(bool),
    /// A number, by the characters it is written with.
    Number(Seq<char>),
    Text(Seq<char>),
    List(Seq<Json>),
    Object(Map<Seq<char>, Json>),
}

impl Json {
    /// What indexing a document by a key gives: the member under that key of an
    /// object, and `Null` where there is no such member or no object.
    pub open spec fn member(self, key: Seq<char>) -> Json {
        match self {
            Json::Object(members) => if members.contains_key(key) {
                members[key]
            } else {
                Json::Null
            },
            _ => Json::Null,
        }
    }
}

#[verifier::external_type_specification]
#[verifier::external_body]
pub struct ExValue(serde_json::Value);

#[verifier::external_type_specification]
#[verifier::external_body]
#[verifier::reject_recursive_types(K)]
#[verifier::reject_recursive_types(V)]
pub struct ExMap<K, V>(serde_json::Map<K, V>);

#[verifier::external_type_specification]
#[verifier::external_body]
pub struct ExError(serde_json::Error);

/// The document that a value holds.
pub uninterp spec fn json_of(value: serde_json::Value) -> Json;

/// The members that the map of an object holds, by key.
pub uninterp spec fn members_of(map: serde_json::Map<String, serde_json::Value>) -> Map<
    Seq<char>,
    Json,
>;

/// The message that an error holds.
pub uninterp spec fn error_text(error: serde_json::Error) -> Seq<char>;

/// What parsing a text gives: the document, or else the parser's message.
pub uninterp spec fn json_parse(text: Seq<char>) -> Result<Json, Seq<char>>;

/// What writing a document gives: its compact text, or else the writer's message.
pub uninterp spec fn json_text(doc: Json) -> Result<Seq<char>, Seq<char>>;

/// `serde_json::from_str` at `Value`. The outcome depends on the text alone:
/// the parsed document, or the error whose message the parser gives for it.
#[verifier::external_body]
pub(crate) fn parse(text: &str) -> (r: Result<serde_json::Value, serde_json::Error>)
    ensures
        match r {
            Ok(value) => json_parse(text@) == Ok::<Json, Seq<char>>(json_of(value)),
            Err(error) => json_parse(text@) == Err::<Json, Seq<char>>(error_text(error)),
        },
{
    serde_json::from_str::<serde_json::Value>(text)
}

/// `serde_json::to_string` at `Value`. The outcome depends on the document alone:
/// its compact text, or the error whose message the writer gives for it.
#[verifier::external_body]
pub(crate) fn render(value: &serde_json::Value) -> (r: Result<String, serde_json::Error>)
    ensures
        match r {
            Ok(text) => json_text(json_of(*value)) == Ok::<Seq<char>, Seq<char>>(text@),
            Err(error) => json_text(json_of(*value)) == Err::<Seq<char>, Seq<char>>(
                error_text(error),
            ),
        },
{
    serde_json::to_string(value)
}

/// The `Display` of `serde_json::Error`, through `to_string`: the error's message.
#[verifier::external_body]
pub(crate) fn describe(error: &serde_json::Error) -> (text: String)
    ensures
        text@ == error_text(*error),
{
    error.to_string()
}

/// `Value::is_null` holds of `Value::Null` and of no other value.
pub assume_specification[ serde_json::Value::is_null ](value: &serde_json::Value) -> (r: bool)
    ensures
        r == (json_of(*value) is Null),
;

/// Indexing a `Value` by a string: the member under that key where the value is
/// an object that has one, and a null value otherwise.
#[verifier::external_body]
pub(crate) fn member<'a>(value: &'a serde_json::Value, key: &str) -> (r: &'a serde_json::Value)
    ensures
        json_of(*r) == json_of(*value).member(key@),
{
    &value[key]
}

/// `Value == &str` holds of a string value with exactly these characters, and of
/// no other value.
#[verifier::external_body]
pub(crate) fn is_text(value: &serde_json::Value, text: &str) -> (r: bool)
    ensures
        r == (json_of(*value) == Json::Text(text@)),
{
    *value == text
}

/// Takes the map out of `Value::Object`; any other value comes back as it is.
#[verifier::external_body]
pub(crate) fn into_object(value: serde_json::Value) -> (r: Result<
    serde_json::Map<String, serde_json::Value>,
    serde_json::Value,
>)
    ensures
        match r {
            Ok(map) => json_of(value) == Json::Object(members_of(map)),
            Err(other) => !(json_of(value) is Object) && other == value,
        },
{
    match value {
        serde_json::Value::Object(map) => Ok(map),
        other => Err(other),
    }
}

/// `Value::Object` around a map: the object with the map's members.
#[verifier::external_body]
pub(crate) fn object_value(map: serde_json::Map<String, serde_json::Value>) -> (r:
    serde_json::Value)
    ensures
        json_of(r) == Json::Object(members_of(map)),
{
    serde_json::Value::Object(map)
}

/// `Value::Array` around a vector: the list of the documents of its items, in order.
#[verifier::external_body]
pub(crate) fn list_value(items: Vec<serde_json::Value>) -> (r: serde_json::Value)
    ensures
        json_of(r) == Json::List(items@.map_values(|item: serde_json::Value| json_of(item))),
{
    serde_json::Value::Array(items)
}

/// The owning iterator of `Map`, collected: every member comes out, under its
/// key and with its value, and nothing else does.
#[verifier::external_body]
pub(crate) fn into_entries(map: serde_json::Map<String, serde_json::Value>) -> (r: Vec<
    (String, serde_json::Value),
>)
    ensures
        forall|i: int|
            0 <= i < r.len() ==> members_of(map).contains_key(#[trigger] r[i].0@) && members_of(
                map,
            )[r[i].0@] == json_of(r[i].1),
        forall|key: Seq<char>| #[trigger]
            members_of(map).contains_key(key) ==> exists|i: int|
                0 <= i < r.len() && #[trigger] r[i].0@ == key,
{
    map.into_iter().collect()
}

/// `Map::insert` puts the value under the key, replacing what was there, and
/// hands back what was there.
pub assume_specification[ serde_json::Map::<String, serde_json::Value>::insert ](
    map: &mut serde_json::Map<String, serde_json::Value>,
    key: String,
    value: serde_json::Value,
) -> (r: Option<serde_json::Value>)
    ensures
        members_of(*final(map)) == members_of(*old(map)).insert(key@, json_of(value)),
        match r {
            Some(was) => members_of(*old(map)).contains_key(key@) && json_of(was) == members_of(
                *old(map),
            )[key@],
            None => !members_of(*old(map)).contains_key(key@),
        },
;

/// `Map::remove` takes the member under the key away, if there is one, and
/// hands it back.
#[verifier::external_body]
pub(crate) fn remove(map: &mut serde_json::Map<String, serde_json::Value>, key: &str) -> (r:
    Option<serde_json::Value>)
    ensures
        members_of(*final(map)) == members_of(*old(map)).remove(key@),
        match r {
            Some(was) => members_of(*old(map)).contains_key(key@) && json_of(was) == members_of(
                *old(map),
            )[key@],
            None => !members_of(*old(map)).contains_key(key@),
        },
{
    map.remove(key)
}

} // verus!
