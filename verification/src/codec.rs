//! Between JSON text and [`JsonValue`]: the calls into `serde_json`.
//!
//! Reading and writing JSON text is `serde_json`'s work. What it returns is
//! not proved here; each result has a name, and the functions around the
//! calls are verified against those names.

use vstd::prelude::*;

use crate::json::{Json, JsonValue};

verus! {

#[verifier::external_type_specification]
#[verifier::external_body]
pub struct ExValue(serde_json::Value);

#[verifier::external_type_specification]
#[verifier::external_body]
pub struct ExError(serde_json::Error);

/// The tree that a `serde_json::Value` holds, each number by the text that
/// `serde_json` displays for it.
pub uninterp spec fn value_model(value: serde_json::Value) -> Json;

/// What `serde_json::from_slice` reads from `bytes`; `None` where it
/// reports an error.
pub uninterp spec fn json_parse(bytes: Seq<u8>) -> Option<serde_json::Value>;

/// The text that `serde_json::to_string` writes for `value`; `None` where it
/// reports an error.
pub uninterp spec fn json_text(value: serde_json::Value) -> Option<Seq<char>>;

/// The `serde_json::Value` built from a tree, each number read from its
/// literal by `serde_json::from_str`; `None` where a literal is refused.
pub uninterp spec fn json_value(tree: Json) -> Option<serde_json::Value>;

/// Calls `serde_json::from_slice` for a `serde_json::Value`. The result is
/// `Ok` exactly where [`json_parse`] names a value, and is then that value.
#[verifier::external_body]
fn from_slice(bytes: &[u8]) -> (parsed: Result<serde_json::Value, serde_json::Error>)
    ensures
        parsed.ok() == json_parse(bytes@),
{
    serde_json::from_slice::<serde_json::Value>(bytes)
}

/// Calls `serde_json::to_string` on a `serde_json::Value`. The result is
/// `Ok` exactly where [`json_text`] names a text, and is then that text.
#[verifier::external_body]
fn to_string(value: &serde_json::Value) -> (text: Result<String, serde_json::Error>)
    ensures
        match text {
            Ok(t) => json_text(*value) == Some(t@),
            Err(_) => json_text(*value) is None,
        },
{
    serde_json::to_string(value)
}

/// Hands out what a `serde_json::Value` holds, variant by variant; a number
/// becomes the text of `serde_json::Number`'s `Display`.
#[verifier::external_body]
fn lift(value: serde_json::Value) -> (tree: JsonValue)
    ensures
        tree@ == value_model(value),
{
    match value {
        serde_json::Value::Null => JsonValue::Null,
        serde_json::Value::Bool(b) => JsonValue::Bool(b),
        serde_json::Value::Number(n) => JsonValue::Number(n.to_string()),
        serde_json::Value::String(s) => JsonValue::Text(s),
        serde_json::Value::Array(a) => JsonValue::Array(a.into_iter().map(lift).collect()),
        serde_json::Value::Object(m) => JsonValue::Object(
            m.into_iter().map(|(k, v)| (k, lift(v))).collect(),
        ),
    }
}

/// Builds the `serde_json::Value` for a tree, variant by variant; a number
/// is read from its literal by `serde_json::from_str`, whose error is handed
/// on. The result is `Ok` exactly where [`json_value`] names a value.
#[verifier::external_body]
fn lower(tree: &JsonValue) -> (value: Result<serde_json::Value, serde_json::Error>)
    ensures
        value.ok() == json_value(tree@),
{
    Ok(match tree {
        JsonValue::Null => serde_json::Value::Null,
        JsonValue::Bool(b) => serde_json::Value::Bool(*b),
        JsonValue::Number(t) => serde_json::Value::Number(serde_json::from_str(t)?),
        JsonValue::Text(s) => serde_json::Value::String(s.clone()),
        JsonValue::Array(a) => serde_json::Value::Array(
            a.iter().map(lower).collect::<Result<_, _>>()?,
        ),
        JsonValue::Object(m) => serde_json::Value::Object(
            m.iter().map(|(k, v)| Ok((k.clone(), lower(v)?))).collect::<Result<_, serde_json::Error>>()?,
        ),
    })
}

/// The tree that JSON text stands for; `None` where it is no JSON text.
pub open spec fn parsed(bytes: Seq<u8>) -> Option<Json> {
    match json_parse(bytes) {
        Some(value) => Some(value_model(value)),
        None => None,
    }
}

/// The JSON text of a tree; `None` where the tree cannot be written.
pub open spec fn rendered(tree: Json) -> Option<Seq<char>> {
    match json_value(tree) {
        Some(value) => json_text(value),
        None => None,
    }
}

/// Reads a value from JSON text.
pub fn parse_json(bytes: &[u8]) -> (value: Option<JsonValue>)
    ensures
        match value {
            Some(v) => parsed(bytes@) == Some(v@),
            None => parsed(bytes@) is None,
        },
{
    match from_slice(bytes) {
        Ok(raw) => Some(lift(raw)),
        Err(_) => None,
    }
}

/// Writes a value as JSON text.
pub fn render_json(value: &JsonValue) -> (text: Option<String>)
    ensures
        match text {
            Some(t) => rendered(value@) == Some(t@),
            None => rendered(value@) is None,
        },
{
    match lower(value) {
        Ok(raw) => match to_string(&raw) {
            Ok(text) => Some(text),
            Err(_) => None,
        },
        Err(_) => None,
    }
}

} // verus!
