//! Reading JSON documents through the JSON library: each wrapper parses the
//! text and reads one thing out of it as plain values.

use vstd::prelude::*;
use serde_json::Value;

verus! {

/// A JSON value of the JSON library.
#[verifier::external_type_specification]
#[verifier::external_body]
pub struct ExJsonValue(serde_json::Value);

/// The parser's message when `text` is not a JSON document, else none.
pub uninterp spec fn json_error_text(text: Seq<char>) -> Option<Seq<char>>;

/// The string at top-level key `key` of the JSON document `text`, when
/// `text` is a JSON object with a string there.
pub uninterp spec fn json_str_at(text: Seq<char>, key: Seq<char>) -> Option<Seq<char>>;

/// The unsigned integer at top-level key `key` of the JSON document `text`,
/// when there is one that fits in 64 bits.
pub uninterp spec fn json_u64_at(text: Seq<char>, key: Seq<char>) -> Option<u64>;

/// Whether the JSON document `text` has an object at top-level key `key`.
pub uninterp spec fn json_object_at(text: Seq<char>, key: Seq<char>) -> bool;

/// Parses `text` as JSON (`serde_json::from_str::<Value>`), giving the
/// parser's message when it is not JSON.
#[verifier::external_body]
pub(crate) fn json_error(text: &str) -> (r: Option<String>)
    ensures
        match (r, json_error_text(text@)) {
            (Some(a), Some(b)) => a@ == b,
            (None, None) => true,
            _ => false,
        },
{
    match serde_json::from_str::<Value>(text) {
        Ok(_) => None,
        Err(e) => Some(e.to_string()),
    }
}

/// Parses `text` as JSON and reads the string at key `key`
/// (`Value::get`, `Value::as_str`).
#[verifier::external_body]
pub(crate) fn json_str_field(text: &str, key: &str) -> (r: Option<String>)
    ensures
        match (r, json_str_at(text@, key@)) {
            (Some(a), Some(b)) => a@ == b,
            (None, None) => true,
            _ => false,
        },
{
    serde_json::from_str::<Value>(text).ok().and_then(|v| v.get(key).and_then(Value::as_str).map(|s| s.to_string()))
}

/// Parses `text` as JSON and reads the unsigned integer at key `key`
/// (`Value::get`, `Value::as_u64`).
#[verifier::external_body]
pub(crate) fn json_u64_field(text: &str, key: &str) -> (r: Option<u64>)
    ensures
        r == json_u64_at(text@, key@),
{
    serde_json::from_str::<Value>(text).ok().and_then(|v| v.get(key).and_then(Value::as_u64))
}

/// Parses `text` as JSON and tells whether key `key` holds an object
/// (`Value::get`, `Value::as_object`).
#[verifier::external_body]
pub(crate) fn json_object_field(text: &str, key: &str) -> (r: bool)
    ensures
        r == json_object_at(text@, key@),
{
    serde_json::from_str::<Value>(text).ok().map_or(false, |v| v.get(key).and_then(Value::as_object).is_some())
}

/// Parses `text` as a JSON value (`serde_json::from_str::<Value>`).
#[verifier::external_body]
pub(crate) fn json_value(text: &str) -> (r: Option<Value>)
    ensures
        r is Some <==> json_error_text(text@) is None,
{
    serde_json::from_str::<Value>(text).ok()
}


/// The number of items of the array at top-level key `key` of the JSON
/// document `text`, when there is an array there.
pub uninterp spec fn json_array_len_at(text: Seq<char>, key: Seq<char>) -> Option<usize>;

/// The string at key `field` of item `i` of the array at top-level key
/// `key` of the JSON document `text`, when there is one.
pub uninterp spec fn json_item_str_at(text: Seq<char>, key: Seq<char>, i: usize, field: Seq<char>) -> Option<Seq<char>>;

/// Parses `text` as JSON and gives the length of the array at key `key`
/// (`Value::get`, `Value::as_array`).
#[verifier::external_body]
pub(crate) fn json_array_len(text: &str, key: &str) -> (r: Option<usize>)
    ensures
        r == json_array_len_at(text@, key@),
{
    serde_json::from_str::<Value>(text).ok().and_then(|v| v.get(key).and_then(Value::as_array).map(|a| a.len()))
}

/// Parses `text` as JSON and reads the string at key `field` of item `i`
/// of the array at key `key` (`Value::get`, `Value::as_array`,
/// `Value::as_str`).
#[verifier::external_body]
pub(crate) fn json_item_str(text: &str, key: &str, i: usize, field: &str) -> (r: Option<String>)
    ensures
        match (r, json_item_str_at(text@, key@, i, field@)) {
            (Some(a), Some(b)) => a@ == b,
            (None, None) => true,
            _ => false,
        },
{
    serde_json::from_str::<Value>(text).ok().and_then(
        |v| v.get(key).and_then(Value::as_array).and_then(|a| a.get(i).and_then(|x| x.get(field)).and_then(Value::as_str).map(|s| s.to_string())),
    )
}

} // verus!
