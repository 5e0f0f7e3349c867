//! Reading and writing JSON text.

use crate::json::{Json, JsonView};
use serde_json::{Number, Value};
use vstd::prelude::*;

verus! {

/// `serde_json::Value`: a JSON value as `serde_json` holds it. Nothing is
/// known of what is inside but through the names below.
#[verifier::external_type_specification]
#[verifier::external_body]
pub struct ExValue(Value);

/// The value that `serde_json::from_slice` reads from bytes; none where the
/// bytes are no JSON text.
pub uninterp spec fn value_parsed(bytes: Seq<u8>) -> Option<Value>;

/// What a value of `serde_json` holds, in the library's own terms: a number
/// as its text, an object as the list of its fields.
pub uninterp spec fn value_contents(value: Value) -> JsonView;

/// The value of `serde_json` that stands for a value of the library; none
/// where the text of one of its numbers is no number to `serde_json`.
pub uninterp spec fn value_made(json: JsonView) -> Option<Value>;

/// The compact JSON text that `serde_json::to_string` writes for a value.
pub uninterp spec fn value_printed(value: Value) -> Option<Seq<char>>;

/// The value that a JSON text stands for, where the bytes are a JSON text.
pub open spec fn json_parsed(bytes: Seq<u8>) -> Option<JsonView> {
    match value_parsed(bytes) {
        Some(value) => Some(value_contents(value)),
        None => None,
    }
}

/// The compact JSON text of a value: that of its fields that count.
pub open spec fn json_printed(json: JsonView) -> Option<Seq<char>> {
    match value_made(json.settled()) {
        Some(value) => value_printed(value),
        None => None,
    }
}

/// Reads bytes as JSON with `serde_json::from_slice`. What comes back
/// depends on the bytes alone.
#[verifier::external_body]
fn value_from_slice(bytes: &[u8]) -> (r: Option<Value>)
    ensures
        r == value_parsed(bytes@),
{
    serde_json::from_slice::<Value>(bytes).ok()
}

/// Turns a value of `serde_json` into the library's own, variant by
/// variant: a number becomes its text, and an object the list of its fields.
#[verifier::external_body]
fn from_value(value: Value) -> (json: Json)
    ensures
        json@ == value_contents(value),
{
    match value {
        Value::Null => Json::Null,
        Value::Bool(b) => Json::Bool(b),
        Value::Number(n) => Json::Number(n.to_string()),
        Value::String(s) => Json::Text(s),
        Value::Array(items) => Json::Array(items.into_iter().map(from_value).collect()),
        Value::Object(fields) => Json::Object(
            fields.into_iter().map(|(k, v)| (k, from_value(v))).collect(),
        ),
    }
}

/// Turns a value of the library into one of `serde_json`, variant by
/// variant, the text of a number by `serde_json`'s own reading of numbers.
/// Nothing comes back where that reading fails.
#[verifier::external_body]
fn to_value(json: &Json) -> (value: Option<Value>)
    ensures
        value == value_made(json@),
{
    Some(
        match json {
            Json::Null => Value::Null,
            Json::Bool(b) => Value::Bool(*b),
            Json::Number(n) => Value::Number(n.parse::<Number>().ok()?),
            Json::Text(t) => Value::String(t.clone()),
            Json::Array(items) => Value::Array(items.iter().map(to_value).collect::<Option<_>>()?),
            Json::Object(fields) => Value::Object(
                fields.iter().map(|(k, v)| Some((k.clone(), to_value(v)?))).collect::<Option<_>>()?,
            ),
        },
    )
}

/// Writes a value as JSON text with `serde_json::to_string`. What comes
/// back depends on the value alone.
#[verifier::external_body]
fn value_to_string(value: &Value) -> (r: Option<String>)
    ensures
        match value_printed(*value) {
            Some(text) => r matches Some(s) && s@ == text,
            None => r is None,
        },
{
    serde_json::to_string(value).ok()
}

impl Json {
    /// The value that a JSON text stands for; none where the bytes are no
    /// JSON text.
    pub fn parse(bytes: &[u8]) -> (r: Option<Json>)
        ensures
            match json_parsed(bytes@) {
                Some(value) => r matches Some(json) && json@ == value,
                None => r is None,
            },
    {
        match value_from_slice(bytes) {
            Some(value) => Some(from_value(value)),
            None => None,
        }
    }

    /// The value as compact JSON text; none where the text of one of its
    /// numbers is no JSON number.
    pub fn to_text(&self) -> (r: Option<String>)
        ensures
            match json_printed(self@) {
                Some(text) => r matches Some(s) && s@ == text,
                None => r is None,
            },
    {
        match to_value(&self.settled()) {
            Some(value) => value_to_string(&value),
            None => None,
        }
    }
}

} // verus!
