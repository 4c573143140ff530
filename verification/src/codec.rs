//! Reading YAML and JSON text into a `JsonValue`.
//!
//! The two readers are `serde_yaml` and `serde_json`. What they return for a
//! text is named here (`yaml_document`, `json_document`) and not defined: the
//! library relies on nothing about it but that the same text always reads as
//! the same document.

use crate::json::JsonValue;
use vstd::prelude::*;

verus! {

/// `serde_json::Value`, carried through without a look inside.
#[verifier::external_type_specification]
#[verifier::external_body]
pub struct ExSerdeJsonValue(serde_json::Value);

/// `serde_yaml::Error`, carried through without a look inside.
#[verifier::external_type_specification]
#[verifier::external_body]
pub struct ExSerdeYamlError(serde_yaml::Error);

/// `serde_json::Error`, carried through without a look inside.
#[verifier::external_type_specification]
#[verifier::external_body]
pub struct ExSerdeJsonError(serde_json::Error);

/// The `JsonValue` that stands for a `serde_json::Value`: variant by
/// variant and member by member, in the order in which the value hands its
/// members out, a number as the text that `serde_json` prints for it.
pub uninterp spec fn json_tree(v: serde_json::Value) -> JsonValue;

/// The document that `serde_yaml` reads from a YAML text into a JSON value;
/// `None` where it reports an error.
pub uninterp spec fn yaml_document(text: Seq<char>) -> Option<JsonValue>;

/// The document that `serde_json` reads from a JSON text; `None` where it
/// reports an error.
pub uninterp spec fn json_document(text: Seq<char>) -> Option<JsonValue>;

/// Converts a `serde_json::Value` into a `JsonValue`, one for one: a match
/// on its variants, `Number::to_string` for a number, and the members of
/// an array or an object in the order of their `into_iter`. The result is
/// the one named `json_tree`; nothing else is claimed of it.
#[verifier::external_body]
pub(crate) fn tree_of(v: serde_json::Value) -> (r: JsonValue)
    ensures
        r == json_tree(v),
{
    match v {
        serde_json::Value::Null => JsonValue::Null,
        serde_json::Value::Bool(b) => JsonValue::Bool(b),
        serde_json::Value::Number(n) => JsonValue::Number(n.to_string()),
        serde_json::Value::String(s) => JsonValue::Str(s),
        serde_json::Value::Array(a) => JsonValue::Array(a.into_iter().map(tree_of).collect()),
        serde_json::Value::Object(o) => JsonValue::Object(
            o.into_iter().map(|(k, x)| (k, tree_of(x))).collect(),
        ),
    }
}

/// `serde_yaml::from_str` with `serde_json::Value` as its target: claims
/// only that the outcome is the one named `yaml_document` for this text.
#[verifier::external_body]
fn read_yaml(text: &str) -> (r: Result<serde_json::Value, serde_yaml::Error>)
    ensures
        match r {
            Ok(v) => yaml_document(text@) == Some(json_tree(v)),
            Err(_) => yaml_document(text@) is None,
        },
{
    serde_yaml::from_str::<serde_json::Value>(text)
}

/// `serde_json::from_str` with `serde_json::Value` as its target: claims
/// only that the outcome is the one named `json_document` for this text.
#[verifier::external_body]
fn read_json(text: &str) -> (r: Result<serde_json::Value, serde_json::Error>)
    ensures
        match r {
            Ok(v) => json_document(text@) == Some(json_tree(v)),
            Err(_) => json_document(text@) is None,
        },
{
    serde_json::from_str::<serde_json::Value>(text)
}

/// The text that `serde_yaml` prints for one of its errors. Nothing is
/// claimed of it.
#[verifier::external_body]
fn yaml_error_text(e: &serde_yaml::Error) -> String {
    e.to_string()
}

/// Reads a YAML text. The error is the reader's own description of what is
/// wrong with the text.
pub fn parse_yaml(text: &str) -> (r: Result<JsonValue, String>)
    ensures
        match r {
            Ok(doc) => yaml_document(text@) == Some(doc),
            Err(_) => yaml_document(text@) is None,
        },
{
    match read_yaml(text) {
        Ok(v) => Ok(tree_of(v)),
        Err(e) => Err(yaml_error_text(&e)),
    }
}

/// Reads a JSON text; `None` where the text is no JSON document.
pub fn parse_json(text: &str) -> (r: Option<JsonValue>)
    ensures
        r == json_document(text@),
{
    match read_json(text) {
        Ok(v) => Some(tree_of(v)),
        Err(_) => None,
    }
}

} // verus!
