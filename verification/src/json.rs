//! The JSON layer. Reading and escaping JSON is `serde_json`'s work; this
//! module declares its value type and states, without proof, what each call
//! that the codec makes returns.

use serde_json::Value;
use vstd::prelude::*;

verus! {

/// `serde_json::Value`: one parsed JSON value. Verified code carries it and
/// learns what it holds through the accessors specified below.
#[verifier::external_type_specification]
#[verifier::external_body]
pub struct ExValue(serde_json::Value);

/// `serde_json::Error`: why a text could not be read.
#[verifier::external_type_specification]
#[verifier::external_body]
pub struct ExError(serde_json::Error);

/// The value that `serde_json::from_str::<Value>` reads from a text, if the
/// text is one JSON document.
pub uninterp spec fn json_document(text: Seq<char>) -> Option<Value>;

/// The member that `Value::get` finds under a string key.
pub uninterp spec fn json_member(value: Value, key: Seq<char>) -> Option<Value>;

/// The text that `Value::as_str` finds in a value.
pub uninterp spec fn json_text(value: Value) -> Option<Seq<char>>;

/// The elements that `Value::as_array` finds in a value.
pub uninterp spec fn json_items(value: Value) -> Option<Seq<Value>>;

/// Whether `Value::is_null` holds of a value.
pub uninterp spec fn json_is_null(value: Value) -> bool;

/// The JSON string literal, quotes and escapes included, that
/// `serde_json::to_string` writes for a text.
pub uninterp spec fn json_quoted(text: Seq<char>) -> Seq<char>;

/// `serde_json::from_str` at type `Value`. Claimed: parsing is a function of
/// the text alone, so the outcome is the one named `json_document`.
#[verifier::external_body]
pub(crate) fn parse_document(text: &str) -> (r: Result<Value, serde_json::Error>)
    ensures
        match r {
            Ok(value) => json_document(text@) == Some(value),
            Err(_) => json_document(text@) is None,
        },
{
    serde_json::from_str::<Value>(text)
}

/// `Value::get` with a string key: the member under that key where the value
/// is an object that has it, nothing otherwise. Claimed: the result is the
/// one named `json_member`.
#[verifier::external_body]
pub(crate) fn member<'a>(value: &'a Value, key: &str) -> (r: Option<&'a Value>)
    ensures
        json_member(*value, key@) == match r {
            Some(found) => Some(*found),
            None => None,
        },
{
    value.get(key)
}

/// `Value::as_str`: the text of a JSON string, nothing for any other value.
pub assume_specification[ Value::as_str ](value: &Value) -> (r: Option<&str>)
    ensures
        json_text(*value) == match r {
            Some(text) => Some(text@),
            None => None,
        },
;

/// `Value::as_array`: the elements of a JSON array, nothing for any other
/// value.
pub assume_specification[ Value::as_array ](value: &Value) -> (r: Option<&Vec<Value>>)
    ensures
        json_items(*value) == match r {
            Some(items) => Some(items@),
            None => None,
        },
;

/// `Value::is_null`: whether the value is JSON `null`.
pub assume_specification[ Value::is_null ](value: &Value) -> (r: bool)
    ensures
        r == json_is_null(*value),
;

/// `serde_json::to_string` on a `str`. Claimed: it cannot fail (it writes
/// into a byte vector, and a string always serialises), and the literal it
/// writes is a function of the text, named `json_quoted`.
#[verifier::external_body]
pub(crate) fn quote(text: &str) -> (r: Result<String, serde_json::Error>)
    ensures
        match r {
            Ok(literal) => literal@ == json_quoted(text@),
            Err(_) => false,
        },
{
    serde_json::to_string(text)
}

} // verus!
