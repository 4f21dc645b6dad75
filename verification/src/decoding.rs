//! Decoding JSON text, as serde_json decodes it, into the library's JSON.

use serde_json::Value;
use vstd::prelude::*;

use crate::json::{Json, JsonNumber, JsonView};

verus! {

/// What JSON text decodes to with `serde_json::from_str`, or `None` when it
/// does not decode.
pub uninterp spec fn json_decoding(text: Seq<char>) -> Option<JsonView>;

/// A decoded value by its view.
pub open spec fn decoded_view(o: Option<Json>) -> Option<JsonView> {
    match o {
        Some(j) => Some(j@),
        None => None,
    }
}

#[verifier::external_type_specification]
#[verifier::external_body]
pub struct ExSerdeValue(Value);

/// The library's JSON for a `serde_json::Value`, one for one: integers that
/// fit 64 bits keep their value, other numbers their decimal text; objects
/// keep their members in the order serde_json holds them.
#[verifier::external_body]
fn from_serde(v: &Value) -> Json {
    match v {
        Value::Null => Json::Null,
        Value::Bool(b) => Json::Bool(*b),
        Value::Number(n) => Json::Number(match (n.as_u64(), n.as_i64()) {
            (Some(u), _) => JsonNumber::PosInt(u),
            (None, Some(i)) => JsonNumber::NegInt(i),
            _ => JsonNumber::Float(n.to_string()),
        }),
        Value::String(s) => Json::String(s.clone()),
        Value::Array(a) => Json::Array(a.iter().map(from_serde).collect()),
        Value::Object(m) => Json::Object(m.iter().map(|(k, x)| (k.clone(), from_serde(x))).collect()),
    }
}

/// `serde_json::from_str::<Value>(text)`, turned into the
/// library's JSON. Claimed: the result is a function of the text alone,
/// named `json_decoding`; `None` when the text is not JSON.
#[verifier::external_body]
pub(crate) fn decode_json(text: &str) -> (r: Option<Json>)
    ensures
        decoded_view(r) == json_decoding(text@),
{
    serde_json::from_str::<Value>(text).ok().map(|v| from_serde(&v))
}

} // verus!
