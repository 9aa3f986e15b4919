//! The trusted boundary to serde_json: the dynamic `Value` type declared
//! opaquely, and one thin wrapper per call the library makes. A `Value`
//! is carried through verified code but never inspected by it; every
//! field read goes through a wrapper here, and all conclusions the
//! library proves are drawn downstream, by verified functions that take
//! the extracted plain values as arguments.

use vstd::prelude::*;

verus! {

#[verifier::external_type_specification]
#[verifier::external_body]
pub struct ExValue(serde_json::Value);

/// Whether a text is a well-formed JSON document, as serde_json's
/// parser decides it: a function of the characters alone.
pub uninterp spec fn json_wf(s: Seq<char>) -> bool;

/// Relies on serde_json::from_str: decodes a JSON document, `None`
/// exactly when the text is not valid JSON.
#[verifier::external_body]
pub(crate) fn json_parse(text: &str) -> (r: Option<serde_json::Value>)
    ensures
        r is Some <==> json_wf(text@),
{
    serde_json::from_str::<serde_json::Value>(text).ok()
}

/// Relies on serde_json::Value::get with a numeric index: the element of
/// an array value, `None` for other values or out of range.
#[verifier::external_body]
pub(crate) fn json_get_index<'a>(v: &'a serde_json::Value, i: usize) -> (r: Option<
    &'a serde_json::Value,
>) {
    v.get(i)
}

/// Relies on serde_json::Value::get with a string key: the field of an
/// object value, `None` for other values or a missing key.
#[verifier::external_body]
pub(crate) fn json_get_key<'a>(v: &'a serde_json::Value, key: &str) -> (r: Option<
    &'a serde_json::Value,
>) {
    v.get(key)
}

/// Relies on serde_json::Value::as_array: the elements of an array
/// value, `None` for other values.
#[verifier::external_body]
pub(crate) fn json_as_array<'a>(v: &'a serde_json::Value) -> (r: Option<
    &'a Vec<serde_json::Value>,
>) {
    v.as_array()
}

/// Relies on serde_json::Value::as_str: the content of a string value,
/// `None` for other values.
#[verifier::external_body]
pub(crate) fn json_as_string(v: &serde_json::Value) -> (r: Option<String>) {
    v.as_str().map(|s| s.to_owned())
}

/// Relies on serde_json::Value::as_number and the `Display` of
/// serde_json::Number: the decimal text of a number value, `None` for
/// other values.
#[verifier::external_body]
pub(crate) fn json_number_text(v: &serde_json::Value) -> (r: Option<String>) {
    v.as_number().map(|n| n.to_string())
}

} // verus!
