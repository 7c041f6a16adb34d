//! The part of `serde_json` that the library relies on.
//!
//! A parsed document stays a `serde_json::Value`. Contracts speak of it through
//! [`json_model`], the tree that the value holds. The contracts of the
//! executable functions in this file are believed, not proved.

use vstd::prelude::*;
use serde_json::Value;
use crate::assoc::{pairs_map, distinct_keys};

verus! {

/// `serde_json::Value`, opaque to the verifier.
#[verifier::external_type_specification]
#[verifier::external_body]
pub struct ExValue(serde_json::Value);

/// A JSON number: a non-negative integer, a negative integer, or any other
/// number, told apart by the bits of its double-precision form.
pub enum JsonNumber {
    Unsigned(u64),
    Negative(i64),
    Real { bits: u64 },
}

/// The tree that a JSON value holds.
pub enum Json {
    Null,
    Bool(bool),
    Number(JsonNumber),
    Text(Seq<char>),
    Array(Seq<Json>),
    Object(Map<Seq<char>, Json>),
}

impl Json {
    /// The member stored under `key`, where `self` is an object that has one.
    pub open spec fn member(self, key: Seq<char>) -> Option<Json> {
        match self {
            Json::Object(members) => if members.contains_key(key) {
                Some(members[key])
            } else {
                None
            },
            _ => None,
        }
    }

    /// The text of a string value.
    pub open spec fn text(self) -> Option<Seq<char>> {
        match self {
            Json::Text(s) => Some(s),
            _ => None,
        }
    }

    /// The truth value of a boolean.
    pub open spec fn boolean(self) -> Option<bool> {
        match self {
            Json::Bool(b) => Some(b),
            _ => None,
        }
    }

    /// The elements of an array.
    pub open spec fn items(self) -> Option<Seq<Json>> {
        match self {
            Json::Array(items) => Some(items),
            _ => None,
        }
    }

    /// The value of a number that is an unsigned 64-bit integer.
    pub open spec fn unsigned(self) -> Option<u64> {
        match self {
            Json::Number(JsonNumber::Unsigned(n)) => Some(n),
            _ => None,
        }
    }
}

/// The tree that `value` holds.
pub uninterp spec fn json_model(value: Value) -> Json;

/// The keys and trees of a list of named values.
pub open spec fn member_list(members: Seq<(String, Value)>) -> Seq<(Seq<char>, Json)> {
    members.map_values(|m: (String, Value)| (m.0@, json_model(m.1)))
}

/// What `serde_json::from_str::<Value>` makes of `text`: the tree of the parsed
/// document, or `None` where the text is not one JSON document.
pub uninterp spec fn parsed_json(text: Seq<char>) -> Option<Json>;

/// The text that `serde_json::to_string` writes for a value that holds `doc`,
/// or `None` where it fails.
pub uninterp spec fn printed_json(doc: Json) -> Option<Seq<char>>;

/// `serde_json::from_str::<Value>`, with the error dropped.
///
/// Claims that parsing depends on the text alone: it succeeds exactly where
/// [`parsed_json`] is `Some`, and the value then holds that tree.
#[verifier::external_body]
pub(crate) fn parse_json(text: &str) -> (r: Option<Value>)
    ensures
        match r {
            Some(value) => parsed_json(text@) == Some(json_model(value)),
            None => parsed_json(text@) is None,
        },
{
    serde_json::from_str::<Value>(text).ok()
}

/// `Value::get` with a string index.
///
/// Claims what the source shows: an object yields the member stored under the
/// key, if it has one; any other value, and a missing key, yield `None`.
#[verifier::external_body]
pub(crate) fn value_get<'a>(value: &'a Value, key: &str) -> (r: Option<&'a Value>)
    ensures
        match r {
            Some(child) => json_model(*value).member(key@) == Some(json_model(*child)),
            None => json_model(*value).member(key@) is None,
        },
{
    value.get(key)
}

/// `Value::as_str`: the text of a string value, `None` for any other value.
pub assume_specification[ Value::as_str ](value: &Value) -> (r: Option<&str>)
    ensures
        match r {
            Some(s) => json_model(*value).text() == Some(s@),
            None => json_model(*value).text() is None,
        },
;

/// `Value::as_bool`: the truth value of a boolean, `None` for any other value.
pub assume_specification[ Value::as_bool ](value: &Value) -> (r: Option<bool>)
    ensures
        r == json_model(*value).boolean(),
;

/// `Value::is_null`: whether the value is null.
pub assume_specification[ Value::is_null ](value: &Value) -> (r: bool)
    ensures
        r == (json_model(*value) is Null),
;

/// `Value::as_u64`: the value of a number that is a non-negative integer
/// fitting 64 bits, `None` for any other number and any other value.
pub assume_specification[ Value::as_u64 ](value: &Value) -> (r: Option<u64>)
    ensures
        r == json_model(*value).unsigned(),
;

/// `Value::as_array`: the elements of an array, `None` for any other value.
pub assume_specification[ Value::as_array ](value: &Value) -> (r: Option<&Vec<Value>>)
    ensures
        match r {
            Some(elements) => json_model(*value).items() == Some(
                elements@.map_values(|e: Value| json_model(e)),
            ),
            None => json_model(*value).items() is None,
        },
;

/// `Value::as_object` followed by `Map::iter`, collected: the members of an
/// object, each key once; `None` for any other value.
#[verifier::external_body]
pub(crate) fn value_members<'a>(value: &'a Value) -> (r: Option<Vec<(&'a String, &'a Value)>>)
    ensures
        match r {
            Some(pairs) => {
                let listed = pairs@.map_values(
                    |m: (&String, &Value)| (m.0@, json_model(*m.1)),
                );
                &&& distinct_keys(listed)
                &&& json_model(*value) == Json::Object(pairs_map(listed))
            },
            None => !(json_model(*value) is Object),
        },
{
    value.as_object().map(|members| members.iter().collect())
}

/// `Value::Null`.
#[verifier::external_body]
pub(crate) fn json_null() -> (r: Value)
    ensures
        json_model(r) == Json::Null,
{
    Value::Null
}

/// `Value::Bool`: the boolean with the given truth value.
#[verifier::external_body]
pub(crate) fn json_bool(b: bool) -> (r: Value)
    ensures
        json_model(r) == Json::Bool(b),
{
    Value::Bool(b)
}

/// `Value::String`: the string value with the given text.
#[verifier::external_body]
pub(crate) fn json_string(text: String) -> (r: Value)
    ensures
        json_model(r) == Json::Text(text@),
{
    Value::String(text)
}

/// `Value::from` on a `u64`: the number that is this non-negative integer.
#[verifier::external_body]
pub(crate) fn json_number(n: u64) -> (r: Value)
    ensures
        json_model(r) == Json::Number(JsonNumber::Unsigned(n)),
{
    Value::from(n)
}

/// `Value::Array`: the array with the given elements, in order.
#[verifier::external_body]
pub(crate) fn json_array(items: Vec<Value>) -> (r: Value)
    ensures
        json_model(r) == Json::Array(items@.map_values(|e: Value| json_model(e))),
{
    Value::Array(items)
}

/// `Value::Object` of a `Map` collected from pairs: the object with the given
/// members. No key may occur twice.
#[verifier::external_body]
pub(crate) fn json_object(members: Vec<(String, Value)>) -> (r: Value)
    requires
        distinct_keys(member_list(members@)),
    ensures
        json_model(r) == Json::Object(pairs_map(member_list(members@))),
{
    Value::Object(members.into_iter().collect())
}

/// `serde_json::to_string` on a value, with the error dropped.
///
/// Claims that the text depends on the tree alone.
#[verifier::external_body]
pub(crate) fn print_json(value: &Value) -> (r: Option<String>)
    ensures
        match r {
            Some(text) => printed_json(json_model(*value)) == Some(text@),
            None => printed_json(json_model(*value)) is None,
        },
{
    serde_json::to_string(value).ok()
}

} // verus!
