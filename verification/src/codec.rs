//! JSON text in and out: the JSON parser and the JSON printer, and the
//! conversions between their tree and [`JsonValue`].

use crate::canonical::{canonical, sort_json_keys};
use crate::text::text_of;
use crate::value::{Json, JsonValue};
use vstd::prelude::*;

verus! {

/// `serde_json::Value`: the tree that the JSON parser builds and the JSON
/// printer takes. It only passes between the two and the conversions below.
#[verifier::external_type_specification]
#[verifier::external_body]
pub struct ExValue(serde_json::Value);

/// What the JSON parser makes of `text`: the document that `text` holds, or
/// nothing where `text` is not one JSON document.
pub uninterp spec fn json_parse(text: Seq<char>) -> Option<Json>;

/// `value` as the JSON printer writes it out over several indented lines, or
/// nothing where the printer gives up. Of the members of an object that
/// share a key the printer is handed one, as `serde_json::Map` keeps them.
pub uninterp spec fn json_pretty(value: Json) -> Option<Seq<char>>;

/// The mathematical value of a document that may be missing.
pub open spec fn document_of(parsed: Option<JsonValue>) -> Option<Json> {
    match parsed {
        Some(value) => Some(value@),
        None => None,
    }
}

/// Turns the JSON parser's tree into a [`JsonValue`], variant by variant;
/// the members of an object in the order in which `serde_json::Map` hands
/// them out. Trusted; nothing is claimed of the result.
#[verifier::external_body]
fn from_tree(tree: serde_json::Value) -> JsonValue {
    match tree {
        serde_json::Value::Null => JsonValue::Null,
        serde_json::Value::Bool(b) => JsonValue::Bool(b),
        serde_json::Value::Number(n) => JsonValue::Number(n),
        serde_json::Value::String(s) => JsonValue::String(s),
        serde_json::Value::Array(items) => JsonValue::Array(
            items.into_iter().map(from_tree).collect(),
        ),
        serde_json::Value::Object(members) => JsonValue::Object(
            members.into_iter().map(|(key, value)| (key, from_tree(value))).collect(),
        ),
    }
}

/// Turns a [`JsonValue`] into the tree that the JSON printer takes, variant
/// by variant; the members of an object are put into a `serde_json::Map` in
/// their order. Trusted; nothing is claimed of the result.
#[verifier::external_body]
fn to_tree(value: &JsonValue) -> serde_json::Value {
    match value {
        JsonValue::Null => serde_json::Value::Null,
        JsonValue::Bool(b) => serde_json::Value::Bool(*b),
        JsonValue::Number(n) => serde_json::Value::Number(n.clone()),
        JsonValue::String(s) => serde_json::Value::String(s.clone()),
        JsonValue::Array(items) => serde_json::Value::Array(items.iter().map(to_tree).collect()),
        JsonValue::Object(members) => serde_json::Value::Object(
            members.iter().map(|(key, value)| (key.clone(), to_tree(value))).collect(),
        ),
    }
}

/// Calls `serde_json::from_str` for a `serde_json::Value` on `text`.
/// Trusted: the result is what [`json_parse`] names, that is, whether and
/// into what `text` parses depends on `text` alone.
#[verifier::external_body]
pub(crate) fn parse_json(text: &str) -> (parsed: Option<JsonValue>)
    ensures
        document_of(parsed) == json_parse(text@),
{
    match serde_json::from_str::<serde_json::Value>(text) {
        Ok(tree) => Some(from_tree(tree)),
        Err(_) => None,
    }
}

/// Calls `serde_json::to_string_pretty` on `value`. Trusted: the result is
/// what [`json_pretty`] names, that is, the text depends on the value alone.
#[verifier::external_body]
pub(crate) fn pretty_json(value: &JsonValue) -> (text: Option<String>)
    ensures
        text_of(text) == json_pretty(value@),
{
    serde_json::to_string_pretty(&to_tree(value)).ok()
}

/// Whether `text` is one JSON document.
pub fn is_json(text: &str) -> (valid: bool)
    ensures
        valid == json_parse(text@).is_some(),
{
    parse_json(text).is_some()
}

/// What is shown for a text that holds the JSON document `document`: its
/// canonical form, written out over several indented lines.
pub open spec fn sorted_text_of(document: Option<Json>) -> Option<Seq<char>> {
    match document {
        Some(value) => json_pretty(canonical(value)),
        None => None,
    }
}

/// Brings a parsed document into canonical form and writes it out. Gives
/// nothing where no document was parsed or the printer gives up.
pub fn sorted_text_from(parsed: Option<JsonValue>) -> (shown: Option<String>)
    ensures
        text_of(shown) == sorted_text_of(document_of(parsed)),
{
    match parsed {
        Some(value) => {
            let mut value = value;
            sort_json_keys(&mut value);
            pretty_json(&value)
        },
        None => None,
    }
}

/// Reads `text` as JSON and writes it out again in canonical form: with
/// the keys of every object in order. Gives nothing where `text` is not
/// JSON.
pub fn sorted_text(text: &str) -> (shown: Option<String>)
    ensures
        text_of(shown) == sorted_text_of(json_parse(text@)),
{
    sorted_text_from(parse_json(text))
}

} // verus!
