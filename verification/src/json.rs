//! The trusted boundary to serde_json.
//!
//! JSON documents are opaque to the verifier: these declarations and wrappers
//! only carry values across.  No contract here claims anything about what a
//! document contains; the engine takes whatever comes back and is verified
//! for every such value.

use vstd::prelude::*;

verus! {

#[verifier::external_type_specification]
#[verifier::external_body]
pub struct ExValue(serde_json::Value);

#[verifier::external_type_specification]
#[verifier::external_body]
pub struct ExNumber(serde_json::Number);

/// Whether serde_json accepts a text as a JSON document.  Acceptance is a
/// function of the text alone; nothing else is assumed of it.
pub uninterp spec fn json_doc_ok(s: Seq<char>) -> bool;

/// Relies on serde_json::from_str: `Some` exactly when the text is a valid
/// JSON document, which is all the engine needs (a parse failure on a feed
/// body counts as a transport failure).
#[verifier::external_body]
pub(crate) fn json_parse(body: &str) -> (r: Option<serde_json::Value>)
    ensures
        r is Some <==> json_doc_ok(body@),
{
    serde_json::from_str::<serde_json::Value>(body).ok()
}

/// Relies on serde_json::Value::get with a string key: the member of an
/// object under that key, `None` on non-objects and missing keys.
#[verifier::external_body]
pub(crate) fn json_get<'a>(v: &'a serde_json::Value, key: &str) -> Option<&'a serde_json::Value> {
    v.get(key)
}

/// Relies on serde_json::Value::as_array.
#[verifier::external_body]
pub(crate) fn json_as_array<'a>(v: &'a serde_json::Value) -> Option<&'a Vec<serde_json::Value>> {
    v.as_array()
}

/// Relies on serde_json::Value::as_number.
#[verifier::external_body]
pub(crate) fn json_as_number<'a>(v: &'a serde_json::Value) -> Option<&'a serde_json::Number> {
    v.as_number()
}

/// Relies on serde_json::Value::as_str; hands the string out as plain bytes.
#[verifier::external_body]
pub(crate) fn json_as_str_bytes(v: &serde_json::Value) -> Option<Vec<u8>> {
    v.as_str().map(|s| s.as_bytes().to_vec())
}

/// Relies on the Display of serde_json::Number (through ToString): the JSON
/// numeral text of the number.
#[verifier::external_body]
pub(crate) fn json_number_text(n: &serde_json::Number) -> Vec<u8> {
    n.to_string().into_bytes()
}

} // verus!
