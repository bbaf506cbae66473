//! The JSON value layer: parsing the data island's text and reading the
//! resulting tree one node at a time. A parsed node is opaque, so every
//! statement about one goes through its model: `JsonVal`, the
//! mathematical shape of a JSON value, tied to the opaque node by
//! `json_model` and to the source text by `json_doc`. The tolerant decode
//! against the listing schema is verified code in `decode` and works
//! through the accessors declared here.

use vstd::prelude::*;

verus! {

#[verifier::external_type_specification]
#[verifier::external_body]
pub struct ExValue(serde_json::Value);

/// The mathematical shape of a JSON value. A number representable as an
/// unsigned 64-bit integer is `UInt`; every other number (negative,
/// fractional, out of range) is `OtherNum`. An object is a map from key
/// to value.
pub enum JsonVal {
    Null,
    Bool(bool),
    UInt(u64),
    OtherNum,
    Text(Seq<char>),
    Arr(Seq<JsonVal>),
    Obj(Map<Seq<char>, JsonVal>),
}

/// The model of a parsed JSON node. A node's shape is fixed, so this is
/// a function of the node alone.
pub uninterp spec fn json_model(v: serde_json::Value) -> JsonVal;

/// What parsing a text as JSON yields: `None` when the text is not
/// well-formed JSON, the model of the parsed value otherwise. Parsing is
/// deterministic, so this is a function of the text alone.
pub uninterp spec fn json_doc(text: Seq<char>) -> Option<JsonVal>;

/// Whether a text is well-formed JSON.
pub open spec fn json_parses(text: Seq<char>) -> bool {
    json_doc(text) is Some
}

/// What looking a key up in a value yields: the entry when the value is
/// an object with that key, nothing otherwise.
pub open spec fn spec_get(j: JsonVal, key: Seq<char>) -> Option<JsonVal> {
    match j {
        JsonVal::Obj(m) => if m.dom().contains(key) {
            Some(m[key])
        } else {
            None
        },
        _ => None,
    }
}

/// Relies on `serde_json::from_str::<Value>`: yields the parsed value,
/// or the parser's message when the text is not well-formed JSON.
#[verifier::external_body]
pub(crate) fn parse_json(text: &str) -> (r: Result<serde_json::Value, String>)
    ensures
        r is Ok <==> json_parses(text@),
        r matches Ok(v) ==> json_doc(text@) == Some(json_model(v)),
{
    match serde_json::from_str::<serde_json::Value>(text) {
        Ok(v) => Ok(v),
        Err(e) => Err(e.to_string()),
    }
}

/// Relies on `serde_json::Value::get` with a string index: the value
/// under the key when `v` is an object with that key, `None` otherwise.
#[verifier::external_body]
pub(crate) fn json_get<'a>(v: &'a serde_json::Value, key: &str) -> (r: Option<
    &'a serde_json::Value,
>)
    ensures
        r is Some <==> spec_get(json_model(*v), key@) is Some,
        r matches Some(x) ==> spec_get(json_model(*v), key@) == Some(json_model(*x)),
{
    v.get(key)
}

/// Relies on `serde_json::Value::as_str`: the string when `v` is a JSON
/// string, `None` otherwise.
#[verifier::external_body]
pub(crate) fn json_as_str<'a>(v: &'a serde_json::Value) -> (r: Option<&'a str>)
    ensures
        match json_model(*v) {
            JsonVal::Text(s) => r matches Some(t) && t@ == s,
            _ => r is None,
        },
{
    v.as_str()
}

/// Relies on `serde_json::Value::as_u64`: the number when `v` is a JSON
/// number representable as an unsigned 64-bit integer, `None` otherwise.
#[verifier::external_body]
pub(crate) fn json_as_u64(v: &serde_json::Value) -> (r: Option<u64>)
    ensures
        match json_model(*v) {
            JsonVal::UInt(n) => r == Some(n),
            _ => r is None,
        },
{
    v.as_u64()
}

/// Relies on `serde_json::Value::as_array`: the elements when `v` is a
/// JSON array, `None` otherwise.
#[verifier::external_body]
pub(crate) fn json_as_array<'a>(v: &'a serde_json::Value) -> (r: Option<&'a Vec<serde_json::Value>>)
    ensures
        match json_model(*v) {
            JsonVal::Arr(elems) => r matches Some(arr) && arr@.len() == elems.len() && (forall|
                i: int,
            |
                0 <= i < elems.len() ==> json_model(#[trigger] arr@[i]) == elems[i]),
            _ => r is None,
        },
{
    v.as_array()
}

/// Relies on `serde_json::Value::is_null`: whether `v` is JSON null.
#[verifier::external_body]
pub(crate) fn json_is_null(v: &serde_json::Value) -> (r: bool)
    ensures
        r == (json_model(*v) is Null),
{
    v.is_null()
}

/// Relies on `serde_json::Value::is_object`: whether `v` is a JSON
/// object.
#[verifier::external_body]
pub(crate) fn json_is_object(v: &serde_json::Value) -> (r: bool)
    ensures
        r == (json_model(*v) is Obj),
{
    v.is_object()
}

} // verus!
