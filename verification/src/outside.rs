use vstd::prelude::*;
use serde_json::Value;
use crate::json::{Json, JsonValue};

verus! {

#[verifier::external_type_specification]
#[verifier::external_body]
pub struct ExValue(serde_json::Value);

/// The tree that parsing a JSON document yields, or nothing where the
/// text is not valid JSON. The result depends on the characters alone.
pub uninterp spec fn json_parsed(s: Seq<char>) -> Option<Json>;

/// Converts a parsed document into the library's tree, field for field:
/// an integral number to its `i64`, any other number to its decimal text.
#[verifier::external_body]
fn from_serde(v: Value) -> JsonValue {
    match v {
        Value::Null => JsonValue::Null,
        Value::Bool(b) => JsonValue::Bool(b),
        Value::Number(n) => match n.as_i64() {
            Some(i) => JsonValue::Int(i),
            None => JsonValue::Num(n.to_string()),
        },
        Value::String(s) => JsonValue::Text(s),
        Value::Array(a) => JsonValue::Arr(a.into_iter().map(from_serde).collect()),
        Value::Object(m) => JsonValue::Obj(m.into_iter().map(|(k, x)| (k, from_serde(x))).collect()),
    }
}

/// Converts the library's tree back into a document, field for field;
/// number text that does not parse back is carried as a string.
#[verifier::external_body]
fn to_serde(v: &JsonValue) -> Value {
    match v {
        JsonValue::Null => Value::Null,
        JsonValue::Bool(b) => Value::Bool(*b),
        JsonValue::Int(i) => Value::Number(serde_json::Number::from(*i)),
        JsonValue::Num(s) => match s.parse::<serde_json::Number>() {
            Ok(n) => Value::Number(n),
            Err(_) => Value::String(s.clone()),
        },
        JsonValue::Text(s) => Value::String(s.clone()),
        JsonValue::Arr(a) => Value::Array(a.iter().map(to_serde).collect()),
        JsonValue::Obj(fs) => Value::Object(fs.iter().map(|(k, x)| (k.clone(), to_serde(x))).collect()),
    }
}

/// Relies on serde_json::from_str for serde_json::Value: parses a JSON
/// document, a pure function of the text.
#[verifier::external_body]
pub fn parse_json(s: &str) -> (r: Option<JsonValue>)
    ensures
        match r {
            Some(v) => json_parsed(s@) == Some(v@),
            None => json_parsed(s@) is None,
        },
{
    match serde_json::from_str::<Value>(s) {
        Ok(v) => Some(from_serde(v)),
        Err(_) => None,
    }
}

/// The single-line rendering of a JSON tree; a pure function of the tree.
pub uninterp spec fn json_text(j: Json) -> Seq<char>;

/// Relies on the `Display` of serde_json::Value: renders the document
/// on one line, deterministically.
#[verifier::external_body]
pub fn stringify_json(v: &JsonValue) -> (r: String)
    ensures
        r@ == json_text(v@),
{
    to_serde(v).to_string()
}

/// The Unicode uppercase form of a string; a function of its characters.
pub uninterp spec fn upper_of(s: Seq<char>) -> Seq<char>;

/// Relies on str::to_uppercase: maps each character to its Unicode
/// uppercase form.
#[verifier::external_body]
pub fn uppercase_str(s: &str) -> (r: String)
    ensures
        r@ == upper_of(s@),
        s@.len() == 0 ==> r@.len() == 0,
{
    s.to_uppercase()
}

/// Relies on uuid::Uuid::new_v4 and its hyphenated `Display` form:
/// 36 characters of hexadecimal digits and hyphens.
#[verifier::external_body]
pub fn new_uuid_string() -> (r: String)
    ensures
        r@.len() == 36,
{
    uuid::Uuid::new_v4().to_string()
}

} // verus!
