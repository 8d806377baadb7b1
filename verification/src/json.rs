//! The JSON values that travel between the transport and the handlers.
//!
//! The values themselves are `serde_json::Value`s. Verus cannot look inside
//! one, so this module gives each value a mathematical shape and states, for
//! the few constructors the dispatch layer needs, which shape they build.
use vstd::prelude::*;

verus! {

/// The mathematical content of a JSON value.
///
/// A number is told apart from every other kind of value, its digits are not
/// modelled: the dispatch layer never produces or inspects one.
pub enum JsonShape {
    Null,
    Bool(bool),
    Number,
    Text(Seq<char>),
    Array(Seq<JsonShape>),
    Object(Map<Seq<char>, JsonShape>),
}

/// Declares `serde_json::Value` as a type whose inside Verus does not see.
#[verifier::external_type_specification]
#[verifier::external_body]
pub struct ExJsonValue(serde_json::Value);

/// Declares `serde_json::Map` as a type whose inside Verus does not see.
#[verifier::external_type_specification]
#[verifier::external_body]
#[verifier::reject_recursive_types(K)]
#[verifier::reject_recursive_types(V)]
pub struct ExJsonMembers<K, V>(serde_json::Map<K, V>);

/// A JSON value as the handlers see it.
pub type JsonValue = serde_json::Value;

/// The members of a JSON object while it is being built.
pub type JsonMembers = serde_json::Map<String, serde_json::Value>;

/// The shape of a `serde_json::Value`: which variant it is and what it holds.
pub uninterp spec fn json_shape(value: serde_json::Value) -> JsonShape;

/// The members of a `serde_json::Map`: each key it holds, with the shape of
/// the value stored under it.
pub uninterp spec fn json_members(members: JsonMembers) -> Map<
    Seq<char>,
    JsonShape,
>;

/// The members of an object that has none.
pub open spec fn no_members() -> Map<Seq<char>, JsonShape> {
    Map::empty()
}

/// Trusted: `serde_json::Value::Null` is the JSON null.
#[verifier::external_body]
pub(crate) fn json_null() -> (value: serde_json::Value)
    ensures
        json_shape(value) == JsonShape::Null,
{
    serde_json::Value::Null
}

/// Trusted: `serde_json::Value::Bool` holds exactly the flag it was given.
#[verifier::external_body]
pub(crate) fn json_bool(flag: bool) -> (value: serde_json::Value)
    ensures
        json_shape(value) == JsonShape::Bool(flag),
{
    serde_json::Value::Bool(flag)
}

/// Trusted: `serde_json::Value::String` is a JSON string with exactly the
/// characters of the text it was given; no character is interpreted.
#[verifier::external_body]
pub(crate) fn json_text(text: String) -> (value: serde_json::Value)
    ensures
        json_shape(value) == JsonShape::Text(text@),
{
    serde_json::Value::String(text)
}

/// Trusted: `serde_json::Value::Object` is a JSON object with exactly the
/// members of the map it was given.
#[verifier::external_body]
pub(crate) fn json_object(members: JsonMembers) -> (value: JsonValue)
    ensures
        json_shape(value) == JsonShape::Object(json_members(members)),
{
    serde_json::Value::Object(members)
}

/// Trusted: `serde_json::Map::new` makes a map without members.
#[verifier::external_body]
pub(crate) fn members_new() -> (members: JsonMembers)
    ensures
        json_members(members) == no_members(),
{
    serde_json::Map::new()
}

/// Trusted: `serde_json::Map::insert` stores the value under the key and
/// leaves every other member as it was. A value already stored under that
/// key is replaced and handed back; otherwise nothing is handed back.
#[verifier::external_body]
pub(crate) fn members_insert(
    members: &mut JsonMembers,
    key: String,
    value: serde_json::Value,
) -> (replaced: Option<serde_json::Value>)
    ensures
        json_members(*final(members)) == json_members(*old(members)).insert(
            key@,
            json_shape(value),
        ),
        replaced.is_some() == json_members(*old(members)).contains_key(key@),
        replaced matches Some(previous) ==> json_shape(previous) == json_members(
            *old(members),
        )[key@],
{
    members.insert(key, value)
}

} // verus!
