//! Reading top-level string fields of a tool call's JSON parameters.

use vstd::prelude::*;

verus! {

/// The string value of the top-level field `field` of the JSON object
/// `json`, or the empty string when `json` is not an object, has no such
/// field, or the field is not a string.
pub uninterp spec fn json_field_str(json: Seq<char>, field: Seq<char>) -> Seq<char>;

/// `serde_json::from_str::<Value>`, then `Value::get` and `Value::as_str`.
/// Trusted: the result is `json_field_str` of the text and the field name.
#[verifier::external_body]
pub(crate) fn param_str(params_json: &str, field: &str) -> (r: String)
    ensures
        r@ == json_field_str(params_json@, field@),
{
    serde_json::from_str::<serde_json::Value>(params_json)
        .ok()
        .and_then(|v| v.get(field).and_then(|x| x.as_str()).map(|s| s.to_string()))
        .unwrap_or_default()
}

} // verus!
