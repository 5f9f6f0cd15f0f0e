use vstd::prelude::*;
use serde::Serialize;
use serde::de::DeserializeOwned;
use serde_json::Value;
use crate::json::{Json, JsonModel, Number};

verus! {

/// `serde_json::Value`, the JSON value of the `serde_json` crate. The library
/// only hands such a value from one `serde_json` function to another.
#[verifier::external_type_specification]
#[verifier::external_body]
pub struct ExValue(Value);

/// Makes a `serde_json::Value` of a number: an integer through `Value::from`,
/// any other number through `str::parse` for `serde_json::Number`, where a
/// literal that it refuses becomes `null`. Nothing is claimed of the result.
#[verifier::external_body]
fn number_to_outside(number: &Number) -> (value: Value) {
    match number {
        Number::Pos(n) => Value::from(*n),
        Number::Neg(n) => Value::from(*n),
        Number::Real(text) => text.parse::<serde_json::Number>().map(Value::Number).unwrap_or(Value::Null),
    }
}

/// Makes the member of a `serde_json::Map` of a member of an object.
#[verifier::external_body]
fn member_to_outside(member: &(String, Json)) -> (entry: (String, Value)) {
    (member.0.clone(), to_outside(&member.1))
}

/// Rebuilds a value variant by variant as a `serde_json::Value`. The members
/// of an object are collected into a `serde_json::Map`, which keeps the last
/// one of each name. Nothing is claimed of the result.
#[verifier::external_body]
fn to_outside(json: &Json) -> (value: Value) {
    match json {
        Json::Null => Value::Null,
        Json::Bool(b) => Value::Bool(*b),
        Json::Number(number) => number_to_outside(number),
        Json::Str(text) => Value::String(text.clone()),
        Json::Array(items) => Value::Array(items.iter().map(to_outside).collect()),
        Json::Object(members) => Value::Object(members.iter().map(member_to_outside).collect()),
    }
}

/// Reads a `serde_json::Value` that holds a number: as the integer that
/// `Value::as_u64` or `Value::as_i64` gives, else as the text that the value
/// displays. Nothing is claimed of the result.
#[verifier::external_body]
fn number_from_outside(value: &Value) -> (n: Number) {
    match (value.as_u64(), value.as_i64()) {
        (Some(u), _) => Number::Pos(u),
        (None, Some(i)) => Number::Neg(i),
        (None, None) => Number::Real(value.to_string()),
    }
}

/// Reads the member of a `serde_json::Map`.
#[verifier::external_body]
fn member_from_outside(entry: (String, Value)) -> (member: (String, Json)) {
    (entry.0, from_outside(entry.1))
}

/// Takes a `serde_json::Value` apart variant by variant. Nothing is claimed
/// of the result.
#[verifier::external_body]
fn from_outside(value: Value) -> (json: Json) {
    match value {
        Value::Null => Json::Null,
        Value::Bool(b) => Json::Bool(b),
        Value::Number(number) => Json::Number(number_from_outside(&Value::Number(number))),
        Value::String(text) => Json::Str(text),
        Value::Array(items) => Json::Array(items.into_iter().map(from_outside).collect()),
        Value::Object(map) => Json::Object(map.into_iter().map(member_from_outside).collect()),
    }
}

/// Calls `serde_json::from_value` for the type `T`. What comes back depends
/// on how `T` reads a value, so nothing is claimed of it; a failure is handed
/// on as the text that the `serde_json` error displays.
#[verifier::external_body]
pub(crate) fn decode_as<T: DeserializeOwned>(json: &Json) -> (outcome: Result<T, String>) {
    match serde_json::from_value::<T>(to_outside(json)) {
        Ok(value) => Ok(value),
        Err(error) => Err(error.to_string()),
    }
}

/// Calls `serde_json::to_value`. What comes back depends on how `T` writes
/// itself, so nothing is claimed of it; a failure is handed on as the text
/// that the `serde_json` error displays.
#[verifier::external_body]
pub(crate) fn encode_from<T: Serialize>(value: T) -> (outcome: Result<Json, String>) {
    match serde_json::to_value(value) {
        Ok(value) => Ok(from_outside(value)),
        Err(error) => Err(error.to_string()),
    }
}

/// What `serde_json::from_slice` makes of a text, read as a
/// `serde_json::Value` and taken apart by the library: the value, or the
/// text that the `serde_json` error displays.
pub uninterp spec fn parsed_text(text: Seq<u8>) -> Result<JsonModel, Seq<char>>;

/// Calls `serde_json::from_slice` for `serde_json::Value`. The result is
/// that of the parser for this text and for nothing else, which is all that
/// is claimed of it.
#[verifier::external_body]
pub(crate) fn parse_json(text: &Vec<u8>) -> (outcome: Result<Json, String>)
    ensures
        outcome_model(outcome) == parsed_text(text@),
{
    match serde_json::from_slice::<Value>(text) {
        Ok(value) => Ok(from_outside(value)),
        Err(error) => Err(error.to_string()),
    }
}

/// What `serde_json::to_vec` writes for a value: its compact JSON text.
pub uninterp spec fn rendered_text(json: JsonModel) -> Seq<u8>;

/// Calls `serde_json::to_vec` on the value rebuilt as a
/// `serde_json::Value`. The text is that of the serializer for this value;
/// the members of an object come in the order of their names, which is how
/// a `serde_json::Map` keeps them. The text holds no line feed: the compact
/// form has no white space between its tokens, and inside a string the
/// serializer writes a line feed as the two characters `\n`.
#[verifier::external_body]
pub(crate) fn render_json(json: &Json) -> (text: Vec<u8>)
    ensures
        text@ == rendered_text(json@),
        forall|i: int| 0 <= i < text@.len() ==> text@[i] != 10u8,
{
    serde_json::to_vec(&to_outside(json)).unwrap_or_default()
}

/// The model of the outcome of reading a text.
pub open spec fn outcome_model(outcome: Result<Json, String>) -> Result<JsonModel, Seq<char>> {
    match outcome {
        Ok(json) => Ok(json@),
        Err(why) => Err(why@),
    }
}

/// Writes the result of a call as JSON for the wire, and hands back what
/// came of it: the value, or the reason why the result cannot be written.
///
/// A result that cannot be written as JSON is a defect of the application,
/// which chose a type that JSON cannot hold. It is no error of the call and
/// is never sent as a reply: the application that gets the reason is to fail
/// loudly on it.
pub fn wire<T: Serialize>(value: T) -> (r: Result<Json, String>)
    ensures
        written_as(value, r),
{
    encode_from(value)
}

/// Whether `outcome` is what writing `value` as JSON gave: what came back
/// from `serde_json::to_value` for this value, taken apart by the library.
/// How `T` writes itself decides it, so nothing more is known of it.
pub closed spec fn written_as<T: Serialize>(value: T, outcome: Result<Json, String>) -> bool {
    call_ensures(encode_from::<T>, (value,), outcome)
}

} // verus!
