//! Reading JSON text into [`JsonValue`]s. The text itself is read by
//! `serde_json`; what it has read is copied into this library's own values.

use serde_json::{Error, Value};
use vstd::prelude::*;
use crate::json::{JsonModel, JsonNumber, JsonValue};

verus! {

/// `serde_json::Value`, the tree that `serde_json` reads a document into.
/// Opaque here: nothing is known of a value but what [`value_model`] names.
#[verifier::external_type_specification]
#[verifier::external_body]
pub struct ExValue(serde_json::Value);

/// `serde_json::Error`, the fault that `serde_json` reports. Opaque here.
#[verifier::external_type_specification]
#[verifier::external_body]
pub struct ExError(serde_json::Error);

/// What a `serde_json::Value` holds, as [`lift_value`] copies it out.
pub uninterp spec fn value_model(value: Value) -> JsonModel;

/// What `serde_json::from_str` reads from `text`: the value of the document,
/// or `None` where it reports an error.
pub uninterp spec fn document_model(text: Seq<char>) -> Option<JsonModel>;

/// Calls `serde_json::from_str` for one `serde_json::Value`. Trusted: whether
/// the text is read, and what is read from it, depends on the text alone. The
/// contract says so by naming the outcome `document_model(text)`, and says
/// nothing of what that is.
#[verifier::external_body]
fn read_json(text: &str) -> (r: Result<Value, Error>)
    ensures
        match r {
            Ok(value) => document_model(text@) == Some(value_model(value)),
            Err(_) => document_model(text@) is None,
        },
{
    serde_json::from_str::<Value>(text)
}

/// Copies a `serde_json::Value` into a [`JsonValue`], variant by variant. The
/// members of an object come in the order in which `Map::iter` walks them; a
/// number is told apart by `Number::as_u64` and `Number::as_i64`. Trusted:
/// the copy depends on the value alone. The contract says so by naming it
/// `value_model(value)`, and says nothing of what that is.
#[verifier::external_body]
fn lift_value(value: &Value) -> (r: JsonValue)
    ensures
        r@ == value_model(*value),
{
    match value {
        Value::Null => JsonValue::Null,
        Value::Bool(b) => JsonValue::Bool(*b),
        Value::Number(n) => JsonValue::Number(match (n.as_u64(), n.as_i64()) {
            (Some(u), _) => JsonNumber::Unsigned(u),
            (_, Some(i)) => JsonNumber::Negative(i),
            _ => JsonNumber::Fraction,
        }),
        Value::String(s) => JsonValue::String(s.clone()),
        Value::Array(items) => JsonValue::Array(items.iter().map(lift_value).collect()),
        Value::Object(m) => JsonValue::Object(m.iter().map(|(k, v)| (k.clone(), lift_value(v))).collect()),
    }
}

/// The message of a `serde_json::Error`, as its `Display` gives it. Nothing
/// is claimed of the text.
#[verifier::external_body]
fn error_message(error: &Error) -> (r: String) {
    error.to_string()
}

/// Why a text is no JSON document.
#[derive(Debug, PartialEq, Eq)]
pub struct SyntaxError {
    /// The reader's message, with the line and column where it has them.
    pub message: String,
}

/// Reads one JSON document from `text`.
pub fn parse_document(text: &str) -> (r: Result<JsonValue, SyntaxError>)
    ensures
        match document_model(text@) {
            Some(document) => r matches Ok(value) && value@ == document,
            None => r is Err,
        },
{
    match read_json(text) {
        Ok(value) => Ok(lift_value(&value)),
        Err(error) => Err(SyntaxError { message: error_message(&error) }),
    }
}

} // verus!
