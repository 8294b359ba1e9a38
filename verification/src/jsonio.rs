//! Trusted access to `serde_json` values.
//!
//! The event stream arrives as JSON; its values are opaque here, and
//! every read goes through one of these wrappers.  Nothing is assumed
//! about what a wrapper returns: the logic that consumes the extracted
//! plain values is verified for every possible value.

use vstd::prelude::*;

verus! {

#[verifier::external_type_specification]
#[verifier::external_body]
pub struct ExValue(serde_json::Value);

/// Relies on `serde_json::from_str`: parses one JSON document, or
/// reports the parse error as text.
#[verifier::external_body]
pub fn json_parse(s: &str) -> (r: Result<serde_json::Value, String>)
{
    serde_json::from_str(s).map_err(|e| e.to_string())
}

/// Relies on `serde_json::Value::get`: the value under a key of an
/// object, if any.
#[verifier::external_body]
pub fn json_get<'a>(v: &'a serde_json::Value, key: &str) -> (r: Option<&'a serde_json::Value>)
{
    v.get(key)
}

/// Relies on `serde_json::Value::as_str`: the text of a JSON string.
#[verifier::external_body]
pub fn json_as_string(v: &serde_json::Value) -> (r: Option<String>)
{
    v.as_str().map(|s| s.to_string())
}

/// Relies on `serde_json::Value::as_bool`.
#[verifier::external_body]
pub fn json_as_bool(v: &serde_json::Value) -> (r: Option<bool>)
{
    v.as_bool()
}

/// Relies on `serde_json::Value::as_i64`.
#[verifier::external_body]
pub fn json_as_i64(v: &serde_json::Value) -> (r: Option<i64>)
{
    v.as_i64()
}

/// Relies on `serde_json::Value::as_u64`.
#[verifier::external_body]
pub fn json_as_u64(v: &serde_json::Value) -> (r: Option<u64>)
{
    v.as_u64()
}

/// Relies on `serde_json::Value::as_array`: the number of elements of
/// a JSON array.
#[verifier::external_body]
pub fn json_array_len(v: &serde_json::Value) -> (r: Option<usize>)
{
    v.as_array().map(|a| a.len())
}

/// Relies on `serde_json::Value::as_array` and slice indexing: one
/// element of a JSON array.
#[verifier::external_body]
pub fn json_array_get<'a>(v: &'a serde_json::Value, i: usize) -> (r: Option<
    &'a serde_json::Value,
>)
{
    v.as_array().and_then(|a| a.get(i))
}

/// Relies on `serde_json::Value::as_object_mut` and `Map::insert`:
/// sets a string field on a JSON object; anything else is untouched.
#[verifier::external_body]
pub fn json_set_string(v: &mut serde_json::Value, key: &str, val: &str)
{
    if let Some(m) = v.as_object_mut() {
        m.insert(key.to_string(), serde_json::Value::String(val.to_string()));
    }
}

/// Relies on `serde_json::to_string`: the serialized form of a value;
/// empty on a serialization failure.
#[verifier::external_body]
pub fn json_to_string(v: &serde_json::Value) -> (r: String)
{
    serde_json::to_string(v).unwrap_or_default()
}

/// Relies on `serde_json::Value: Clone`.
#[verifier::external_body]
pub fn json_clone(v: &serde_json::Value) -> (r: serde_json::Value)
{
    v.clone()
}

} // verus!
