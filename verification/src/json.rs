//! Reading JSON documents.

use vstd::prelude::*;

verus! {

/// `serde_json::Value`, a JSON value. Nothing of what it holds is visible
/// but through the functions below.
#[verifier::external_type_specification]
#[verifier::external_body]
pub struct ExValue(serde_json::Value);

/// The value that `text` denotes as a JSON document, and `None` where it
/// is no JSON document.
pub uninterp spec fn json_document(text: Seq<char>) -> Option<serde_json::Value>;

/// The member `key` of a JSON object, and `None` where the value is no
/// object or has no such member.
pub uninterp spec fn json_member(value: serde_json::Value, key: Seq<char>) -> Option<
    serde_json::Value,
>;

/// The text of a JSON string, and `None` where the value is no string.
pub uninterp spec fn json_text(value: serde_json::Value) -> Option<Seq<char>>;

/// The number that a JSON number denotes where it is an integer of 64 bits
/// with a sign, and `None` for every other value.
pub uninterp spec fn json_integer(value: serde_json::Value) -> Option<i64>;

/// What a JSON boolean says, and `None` where the value is no boolean.
pub uninterp spec fn json_boolean(value: serde_json::Value) -> Option<bool>;

/// Whether the value is JSON's `null`.
pub uninterp spec fn json_is_null(value: serde_json::Value) -> bool;

/// Whether the value is a JSON object.
pub uninterp spec fn json_is_object(value: serde_json::Value) -> bool;

/// The items of a JSON array, and `None` where the value is no array.
pub uninterp spec fn json_items(value: serde_json::Value) -> Option<Seq<serde_json::Value>>;

/// Parses `text` with `serde_json::from_str` into a `serde_json::Value`.
/// The result is a function of the text alone; a text that is no JSON
/// document gives `None`.
#[verifier::external_body]
pub(crate) fn parse_document(text: &str) -> (r: Option<serde_json::Value>)
    ensures
        r == json_document(text@),
{
    serde_json::from_str::<serde_json::Value>(text).ok()
}

/// `serde_json::Value::get` with a string for its index: the member `key`
/// of an object.
#[verifier::external_body]
pub(crate) fn member<'a>(value: &'a serde_json::Value, key: &str) -> (r: Option<
    &'a serde_json::Value,
>)
    ensures
        match r {
            Some(m) => json_member(*value, key@) == Some(*m),
            None => json_member(*value, key@) is None,
        },
{
    value.get(key)
}

/// `serde_json::Value::as_str`: the text of a string.
#[verifier::external_body]
pub(crate) fn text_of<'a>(value: &'a serde_json::Value) -> (r: Option<&'a str>)
    ensures
        match r {
            Some(s) => json_text(*value) == Some(s@),
            None => json_text(*value) is None,
        },
{
    value.as_str()
}

/// `serde_json::Value::as_i64`: the number, where it is an integer that
/// fits.
#[verifier::external_body]
pub(crate) fn integer_of(value: &serde_json::Value) -> (r: Option<i64>)
    ensures
        r == json_integer(*value),
{
    value.as_i64()
}

/// `serde_json::Value::as_bool`: what a boolean says.
#[verifier::external_body]
pub(crate) fn boolean_of(value: &serde_json::Value) -> (r: Option<bool>)
    ensures
        r == json_boolean(*value),
{
    value.as_bool()
}

/// `serde_json::Value::is_null`.
#[verifier::external_body]
pub(crate) fn is_null(value: &serde_json::Value) -> (r: bool)
    ensures
        r == json_is_null(*value),
{
    value.is_null()
}

/// `serde_json::Value::is_object`.
#[verifier::external_body]
pub(crate) fn is_object(value: &serde_json::Value) -> (r: bool)
    ensures
        r == json_is_object(*value),
{
    value.is_object()
}

/// `serde_json::Value::as_array`: the items of an array.
#[verifier::external_body]
pub(crate) fn items_of<'a>(value: &'a serde_json::Value) -> (r: Option<&'a Vec<serde_json::Value>>)
    ensures
        match r {
            Some(items) => json_items(*value) == Some(items@),
            None => json_items(*value) is None,
        },
{
    value.as_array()
}

} // verus!
