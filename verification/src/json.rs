//! Trusted boundary around the JSON crate. A parsed value is opaque to the
//! verifier; what each navigation call returns is named by the spec
//! functions below — every one a function of the value and its arguments
//! alone — and the API client's contracts speak of those names.

use serde_json::Value;
use vstd::prelude::*;

verus! {

/// A JSON document as serde_json parsed it.
#[verifier::external_type_specification]
#[verifier::external_body]
pub struct ExValue(Value);

/// The JSON value a body parses to, or nothing when the body is not JSON.
pub uninterp spec fn parsed_json(body: Seq<char>) -> Option<Value>;

/// The value under a key, when the value is an object holding that key.
pub uninterp spec fn json_field(v: Value, key: Seq<char>) -> Option<Value>;

/// The content of a JSON string, when the value is one.
pub uninterp spec fn json_str(v: Value) -> Option<Seq<char>>;

/// The elements of a JSON array, in order, when the value is one.
pub uninterp spec fn json_array(v: Value) -> Option<Seq<Value>>;

/// Relies on serde_json::from_str: parses a JSON document, or reports that
/// the body is not JSON. The result is a function of the body alone.
#[verifier::external_body]
pub fn json_parse(body: &str) -> (r: Option<Value>)
    ensures
        r == parsed_json(body@),
{
    serde_json::from_str(body).ok()
}

/// Relies on serde_json's Value::get: the value under a key of a JSON
/// object, when the value is an object holding that key.
#[verifier::external_body]
pub fn json_get<'a>(v: &'a Value, key: &str) -> (r: Option<&'a Value>)
    ensures
        r is Some <==> json_field(*v, key@) is Some,
        r matches Some(x) ==> json_field(*v, key@) == Some(*x),
{
    v.get(key)
}

/// Relies on serde_json's Value::as_str: the content of a JSON string.
#[verifier::external_body]
pub fn json_as_str(v: &Value) -> (r: Option<String>)
    ensures
        r.deep_view() == json_str(*v),
{
    v.as_str().map(|s| s.to_owned())
}

/// Relies on serde_json's Value::as_array: the elements of a JSON array.
#[verifier::external_body]
pub fn json_as_array<'a>(v: &'a Value) -> (r: Option<&'a Vec<Value>>)
    ensures
        r is Some <==> json_array(*v) is Some,
        r matches Some(a) ==> json_array(*v) == Some(a@),
{
    v.as_array()
}

} // verus!
