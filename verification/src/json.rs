//! The boundary to `serde_json`: the JSON parser and the document tree that
//! it builds. Nothing in this file is proved. Each function states what the
//! `serde_json` item that it calls does, over a mathematical model of a JSON
//! document.

use vstd::prelude::*;

verus! {

#[verifier::external_type_specification]
#[verifier::external_body]
pub struct ExJsonValue(serde_json::Value);

#[verifier::external_type_specification]
#[verifier::external_body]
pub struct ExJsonError(serde_json::Error);

/// A JSON document as a mathematical tree. The value of a number is left
/// out: nothing in this library reads one.
pub enum Json {
    Null,
    Bool(bool),
    Number,
    Text(Seq<char>),
    Array(Seq<Json>),
    Object(Map<Seq<char>, Json>),
}

/// The document that a `serde_json::Value` holds: its variant, and below a
/// string, an array or an object the characters, the elements in order, or
/// the member of each key.
pub uninterp spec fn json_model(value: serde_json::Value) -> Json;

/// The document that `serde_json::from_str` reads from a text, or `None`
/// where it reports an error.
pub uninterp spec fn json_of_text(text: Seq<char>) -> Option<Json>;

/// The document that `serde_json::from_slice` reads from bytes, or `None`
/// where it reports an error.
pub uninterp spec fn json_of_bytes(bytes: Seq<u8>) -> Option<Json>;

/// `serde_json::from_str` into a `Value`. The outcome depends on the text
/// alone: the contract gives it the name `json_of_text`, and says nothing
/// else of it.
#[verifier::external_body]
pub(crate) fn parse_text(text: &str) -> (r: Result<serde_json::Value, serde_json::Error>)
    ensures
        r matches Ok(value) ==> json_of_text(text@) == Some(json_model(value)),
        r is Err ==> json_of_text(text@) is None,
{
    serde_json::from_str::<serde_json::Value>(text)
}

/// `serde_json::from_slice` into a `Value`. The outcome depends on the
/// bytes alone: the contract gives it the name `json_of_bytes`, and says
/// nothing else of it.
#[verifier::external_body]
pub(crate) fn parse_bytes(bytes: &[u8]) -> (r: Result<serde_json::Value, serde_json::Error>)
    ensures
        r matches Ok(value) ==> json_of_bytes(bytes@) == Some(json_model(value)),
        r is Err ==> json_of_bytes(bytes@) is None,
{
    serde_json::from_slice::<serde_json::Value>(bytes)
}

/// `Value::is_object`: whether the value is the variant `Object`.
#[verifier::external_body]
pub(crate) fn is_object(value: &serde_json::Value) -> (r: bool)
    ensures
        r == (json_model(*value) is Object),
{
    value.is_object()
}

/// `Value::is_null`: whether the value is the variant `Null`.
#[verifier::external_body]
pub(crate) fn is_null(value: &serde_json::Value) -> (r: bool)
    ensures
        r == (json_model(*value) is Null),
{
    value.is_null()
}

/// `Value::get` with a string index: the member of an object under the
/// key, and `None` where the value is no object or has no such member.
#[verifier::external_body]
pub(crate) fn member<'a>(value: &'a serde_json::Value, key: &str) -> (r: Option<
    &'a serde_json::Value,
>)
    ensures
        match json_model(*value) {
            Json::Object(members) => if members.contains_key(key@) {
                r matches Some(found) && json_model(*found) == members[key@]
            } else {
                r is None
            },
            _ => r is None,
        },
{
    value.get(key)
}

/// `Value::as_array`: the vector of an array's elements, and `None` where
/// the value is no array.
#[verifier::external_body]
pub(crate) fn elements<'a>(value: &'a serde_json::Value) -> (r: Option<
    &'a Vec<serde_json::Value>,
>)
    ensures
        match json_model(*value) {
            Json::Array(items) => r matches Some(found) && found@.len() == items.len()
                && forall|i: int|
                0 <= i < items.len() ==> json_model(#[trigger] found@[i]) == items[i],
            _ => r is None,
        },
{
    value.as_array()
}

/// `Value::as_str`: the characters of a string, and `None` where the value
/// is no string.
#[verifier::external_body]
pub(crate) fn text<'a>(value: &'a serde_json::Value) -> (r: Option<&'a str>)
    ensures
        match json_model(*value) {
            Json::Text(chars) => r matches Some(found) && found@ == chars,
            _ => r is None,
        },
{
    value.as_str()
}

} // verus!
