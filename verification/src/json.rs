//! The JSON reader of `serde_json`, as far as the codec uses it.
//!
//! Nothing here is proved. Each function makes one call into `serde_json`
//! and states what that call does; each uninterpreted function names the
//! result of one of them, which depends on the arguments alone.

use vstd::prelude::*;

verus! {

/// `serde_json::Value`: a JSON document, or a part of one. Nothing is known
/// of what is inside a value but what the functions below say.
#[verifier::external_type_specification]
#[verifier::external_body]
pub struct ExJsonValue(serde_json::Value);

/// `serde_json::Error`: why a text could not be read. It is carried out of
/// the call and never looked into.
#[verifier::external_type_specification]
#[verifier::external_body]
pub struct ExJsonError(serde_json::Error);

/// The JSON document that `serde_json::from_slice` reads from `text`, or `None`
/// where it reports an error.
pub uninterp spec fn json_document(text: Seq<u8>) -> Option<serde_json::Value>;

/// The member that `serde_json::Value::get` finds in `doc` under the string key `key`.
pub uninterp spec fn json_member(doc: serde_json::Value, key: Seq<char>) -> Option<serde_json::Value>;

/// The text of `value` as `serde_json::Value::as_str` gives it.
pub uninterp spec fn json_text(value: serde_json::Value) -> Option<Seq<char>>;

/// The number in `value` as `serde_json::Value::as_u64` gives it.
pub uninterp spec fn json_unsigned(value: serde_json::Value) -> Option<u64>;

/// `serde_json::from_slice::<serde_json::Value>`: parses a whole byte string as
/// one JSON document. The outcome depends on the bytes alone.
#[verifier::external_body]
pub(crate) fn parse_document(text: &[u8]) -> (r: Result<serde_json::Value, serde_json::Error>)
    ensures
        r is Ok <==> json_document(text@) is Some,
        r is Ok ==> json_document(text@) == Some(r->Ok_0),
{
    serde_json::from_slice::<serde_json::Value>(text)
}

/// `serde_json::Value::get` with a string key: the member of an object under
/// that key; `None` for a missing key and for a value that is no object.
#[verifier::external_body]
pub(crate) fn member<'a>(doc: &'a serde_json::Value, key: &str) -> (r: Option<&'a serde_json::Value>)
    ensures
        r is Some <==> json_member(*doc, key@) is Some,
        r is Some ==> json_member(*doc, key@) == Some(*r->Some_0),
{
    doc.get(key)
}

/// `serde_json::Value::as_str`: the text of a JSON string, `None` for any other value.
#[verifier::external_body]
pub(crate) fn as_text<'a>(value: &'a serde_json::Value) -> (r: Option<&'a str>)
    ensures
        r is Some <==> json_text(*value) is Some,
        r is Some ==> json_text(*value) == Some(r->Some_0@),
{
    value.as_str()
}

/// `serde_json::Value::as_u64`: a JSON number that is a non-negative integer
/// below 2^64, `None` for any other value.
#[verifier::external_body]
pub(crate) fn as_unsigned(value: &serde_json::Value) -> (r: Option<u64>)
    ensures
        r == json_unsigned(*value),
{
    value.as_u64()
}

} // verus!
