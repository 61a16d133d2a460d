//! The JSON reader and writer that the library relies on, and what is
//! assumed of them.
//!
//! Documents are read and strings are quoted by `serde_json`. A parsed value
//! stays opaque here: the contracts speak of it through the names below, one
//! for each way in which the library looks at a value.

use vstd::prelude::*;

verus! {

/// `serde_json::Value`: a parsed JSON value, of which nothing is seen here
/// but through the readers below.
#[verifier::external_type_specification]
#[verifier::external_body]
pub struct ExValue(serde_json::Value);

/// `serde_json::Error`: the report of a failed read or write, carried as it is.
#[verifier::external_type_specification]
#[verifier::external_body]
pub struct ExJsonError(serde_json::Error);

/// The value that `serde_json::from_str` reads from a text, if it reads one.
pub uninterp spec fn json_document(text: Seq<char>) -> Option<serde_json::Value>;

/// The value that `serde_json::from_slice` reads from bytes, if it reads one.
pub uninterp spec fn json_document_of_bytes(bytes: Seq<u8>) -> Option<serde_json::Value>;

/// The members of a value that is an object, by key; `None` for any other value.
pub uninterp spec fn json_members(value: serde_json::Value) -> Option<
    Map<Seq<char>, serde_json::Value>,
>;

/// The items of a value that is an array, in order; `None` for any other value.
pub uninterp spec fn json_items(value: serde_json::Value) -> Option<Seq<serde_json::Value>>;

/// The text of a value that is a string; `None` for any other value.
pub uninterp spec fn json_text(value: serde_json::Value) -> Option<Seq<char>>;

/// The number held by a value that is an integer within `i64`; `None` for
/// any other value.
pub uninterp spec fn json_integer(value: serde_json::Value) -> Option<i64>;

/// Whether a value is `null`.
pub uninterp spec fn json_is_null(value: serde_json::Value) -> bool;

/// The JSON string literal that `serde_json::to_string` writes for a text,
/// if it writes one.
pub uninterp spec fn json_string_literal(text: Seq<char>) -> Option<Seq<char>>;

/// The member of an object under a key; `None` for a missing key and for a
/// value that is no object.
pub open spec fn json_member(value: serde_json::Value, key: Seq<char>) -> Option<
    serde_json::Value,
> {
    match json_members(value) {
        Some(members) => if members.dom().contains(key) {
            Some(members[key])
        } else {
            None
        },
        None => None,
    }
}

/// `serde_json::from_str` at type `serde_json::Value`: the whole text is read
/// as one JSON value, or an error is returned. The parser is a function of
/// the text alone, so its outcome is given the name `json_document`.
#[verifier::external_body]
pub(crate) fn parse_document(text: &str) -> (r: Result<serde_json::Value, serde_json::Error>)
    ensures
        r.is_ok() == json_document(text@).is_some(),
        r.is_ok() ==> r.unwrap() == json_document(text@).unwrap(),
{
    serde_json::from_str::<serde_json::Value>(text)
}

/// `serde_json::from_slice` at type `serde_json::Value`: as `parse_document`,
/// on bytes, which need not be valid UTF-8 for the call to return.
#[verifier::external_body]
pub(crate) fn parse_bytes(bytes: &[u8]) -> (r: Result<serde_json::Value, serde_json::Error>)
    ensures
        r.is_ok() == json_document_of_bytes(bytes@).is_some(),
        r.is_ok() ==> r.unwrap() == json_document_of_bytes(bytes@).unwrap(),
{
    serde_json::from_slice::<serde_json::Value>(bytes)
}

/// `serde_json::Value::get` with a string key: the member of an object under
/// that key, `None` for a missing key and for a value that is no object.
#[verifier::external_body]
pub(crate) fn member<'a>(value: &'a serde_json::Value, key: &str) -> (r: Option<
    &'a serde_json::Value,
>)
    ensures
        r.is_some() == json_member(*value, key@).is_some(),
        r.is_some() ==> *r.unwrap() == json_member(*value, key@).unwrap(),
{
    value.get(key)
}

/// `serde_json::Value::as_object` followed by `serde_json::Map::len`: the
/// number of members of an object, `None` for a value that is no object. An
/// object holds each key once, so its keys are a finite set of that size.
#[verifier::external_body]
pub(crate) fn member_count(value: &serde_json::Value) -> (r: Option<usize>)
    ensures
        r.is_some() == json_members(*value).is_some(),
        r.is_some() ==> json_members(*value).unwrap().dom().finite(),
        r.is_some() ==> r.unwrap() == json_members(*value).unwrap().dom().len(),
{
    value.as_object().map(serde_json::Map::len)
}

/// `serde_json::Value::as_array`: the items of an array, `None` for any
/// other kind of value.
#[verifier::external_body]
pub(crate) fn items<'a>(value: &'a serde_json::Value) -> (r: Option<&'a Vec<serde_json::Value>>)
    ensures
        r.is_some() == json_items(*value).is_some(),
        r.is_some() ==> r.unwrap()@ == json_items(*value).unwrap(),
{
    value.as_array()
}

/// `serde_json::Value::as_str`: the text of a JSON string, `None` for any
/// other kind of value.
#[verifier::external_body]
pub(crate) fn text<'a>(value: &'a serde_json::Value) -> (r: Option<&'a str>)
    ensures
        r.is_some() == json_text(*value).is_some(),
        r.is_some() ==> r.unwrap()@ == json_text(*value).unwrap(),
{
    value.as_str()
}

/// `serde_json::Value::as_i64`: the number held by a JSON integer that fits
/// `i64`, `None` for a fraction, a larger number or another kind of value.
#[verifier::external_body]
pub(crate) fn integer(value: &serde_json::Value) -> (r: Option<i64>)
    ensures
        r == json_integer(*value),
{
    value.as_i64()
}

/// `serde_json::Value::is_null`.
#[verifier::external_body]
pub(crate) fn is_null(value: &serde_json::Value) -> (r: bool)
    ensures
        r == json_is_null(*value),
{
    value.is_null()
}

/// `Clone::clone` of `serde_json::Value`: an equal value of its own.
#[verifier::external_body]
pub(crate) fn copy_value(value: &serde_json::Value) -> (r: serde_json::Value)
    ensures
        r == *value,
{
    value.clone()
}

/// `serde_json::to_string` at type `str`: the text as a JSON string literal,
/// quoted and escaped, or an error. The call writes into a buffer of its
/// own, so its outcome depends on the text alone and has the name
/// `json_string_literal`; that the call succeeds is not assumed.
#[verifier::external_body]
pub(crate) fn quote(text: &str) -> (r: Result<String, serde_json::Error>)
    ensures
        r.is_ok() == json_string_literal(text@).is_some(),
        r.is_ok() ==> r.unwrap()@ == json_string_literal(text@).unwrap(),
{
    serde_json::to_string::<str>(text)
}

} // verus!
