//! JSON, as serde_json reads it.
//!
//! Nothing in here is proved: each function stands for one function of
//! serde_json, and says what that function gives. What JSON a text denotes is
//! not spelled out; it has a name, and the functions say how their results
//! relate to the names.

use vstd::prelude::*;

verus! {

/// `serde_json::Value`: a JSON value. It is carried from one function of
/// serde_json to the next, and nothing of what is inside it is looked at.
#[verifier::external_type_specification]
#[verifier::external_body]
pub struct ExJsonValue(serde_json::Value);

/// `serde_json::Error`: why a text is no JSON of the kind that was asked
/// for. It is handed on as it came, and nothing of what is inside it is
/// looked at.
#[verifier::external_type_specification]
#[verifier::external_body]
pub struct ExJsonError(serde_json::Error);

/// The JSON value that `text` denotes, if it denotes one: what
/// `serde_json::from_str` makes of it.
pub uninterp spec fn json_document(text: Seq<char>) -> Option<serde_json::Value>;

/// The elements of the JSON array that `text` denotes, or why it denotes
/// none: what `serde_json::from_str` makes of it for a vector of values.
pub uninterp spec fn json_array(text: Seq<char>) -> Result<
    Seq<serde_json::Value>,
    serde_json::Error,
>;

/// The member of `value` under `key`: what indexing a `serde_json::Value`
/// with a string gives, which is the null value where `value` is no object
/// or has no such member.
pub uninterp spec fn json_member(value: serde_json::Value, key: Seq<char>) -> serde_json::Value;

/// The number that `value` is, if it is an integer that is not negative and
/// fits 64 bits: what `serde_json::Value::as_u64` gives.
pub uninterp spec fn json_u64(value: serde_json::Value) -> Option<u64>;

/// The JSON text of `value`, without any space that JSON does not need: what
/// formatting a `serde_json::Value` with `Display` gives.
pub uninterp spec fn json_text(value: serde_json::Value) -> Seq<char>;

/// `serde_json::from_str` at the type `serde_json::Value`: the JSON value
/// that `text` denotes, or an error where it denotes none.
#[verifier::external_body]
pub(crate) fn parse_json(text: &str) -> (document: Result<serde_json::Value, serde_json::Error>)
    ensures
        match document {
            Ok(value) => json_document(text@) == Some(value),
            Err(_) => json_document(text@) is None,
        },
{
    serde_json::from_str::<serde_json::Value>(text)
}

/// `serde_json::from_str` at the type of a vector of `serde_json::Value`: the
/// elements of the JSON array that `text` denotes, or an error where it
/// denotes none.
#[verifier::external_body]
pub(crate) fn parse_json_array(text: &str) -> (elements: Result<
    Vec<serde_json::Value>,
    serde_json::Error,
>)
    ensures
        match elements {
            Ok(values) => json_array(text@) == Ok::<Seq<serde_json::Value>, serde_json::Error>(
                values@,
            ),
            Err(error) => json_array(text@) == Err::<Seq<serde_json::Value>, serde_json::Error>(
                error,
            ),
        },
{
    serde_json::from_str::<Vec<serde_json::Value>>(text)
}

/// Indexing of a `serde_json::Value` with a string: the member under `key`.
#[verifier::external_body]
pub(crate) fn member<'a>(value: &'a serde_json::Value, key: &str) -> (found: &'a serde_json::Value)
    ensures
        *found == json_member(*value, key@),
{
    &value[key]
}

/// `serde_json::Value::as_u64`: the number that `value` is, if it is an
/// integer that is not negative and fits 64 bits.
#[verifier::external_body]
pub(crate) fn as_u64(value: &serde_json::Value) -> (number: Option<u64>)
    ensures
        number == json_u64(*value),
{
    value.as_u64()
}

/// `to_string` of a `serde_json::Value`, which formats it with `Display`: the
/// JSON text of `value`.
#[verifier::external_body]
pub(crate) fn render(value: &serde_json::Value) -> (text: String)
    ensures
        text@ == json_text(*value),
{
    value.to_string()
}

} // verus!
