//! What the library reads of a JSON document.
//!
//! Parsing and the document's own structure are `serde_json`'s. Each
//! function here hands one of its calls on, and its contract names what the
//! call returns; none of this is proved.

use vstd::prelude::*;
use serde_json::{Number, Value};

verus! {

#[verifier::external_type_specification]
#[verifier::external_body]
pub struct ExJsonValue(serde_json::Value);

#[verifier::external_type_specification]
#[verifier::external_body]
pub struct ExJsonNumber(serde_json::Number);

#[verifier::external_type_specification]
#[verifier::external_body]
pub struct ExJsonError(serde_json::Error);

/// The document that the bytes are the JSON text of, if they are one.
pub uninterp spec fn json_document(bytes: Seq<u8>) -> Option<Value>;

/// The member that a JSON value holds under `key`: there is one where the
/// value is an object with that key.
pub uninterp spec fn json_member(value: Value, key: Seq<char>) -> Option<Value>;

/// The elements of a JSON value that is an array.
pub uninterp spec fn json_items(value: Value) -> Option<Seq<Value>>;

/// The characters of a JSON value that is a string.
pub uninterp spec fn json_text(value: Value) -> Option<Seq<char>>;

/// The number that a JSON value is, if it is one.
pub uninterp spec fn json_number(value: Value) -> Option<Number>;

/// The decimal text of a JSON number, as bytes.
pub uninterp spec fn number_digits(number: Number) -> Seq<u8>;

/// The decimal text of a JSON value that is a number, as bytes.
pub open spec fn json_number_text(value: Value) -> Option<Seq<u8>> {
    match json_number(value) {
        Some(number) => Some(number_digits(number)),
        None => None,
    }
}

/// `serde_json::from_slice` for a `Value`. It parses the bytes as one JSON
/// text and fails where they are none; which it does depends on the bytes
/// alone. The contract gives the parsed document its name.
#[verifier::external_body]
pub(crate) fn parse(bytes: &[u8]) -> (r: Result<Value, serde_json::Error>)
    ensures
        match r {
            Ok(document) => json_document(bytes@) == Some(document),
            Err(_) => json_document(bytes@) is None,
        },
{
    serde_json::from_slice::<Value>(bytes)
}

/// `serde_json::Value::get` with a string key. It hands out the member of an
/// object under that key, and nothing for a missing key or for a value that
/// is no object; the contract gives that result its name.
#[verifier::external_body]
pub(crate) fn member<'a>(value: &'a Value, key: &str) -> (r: Option<&'a Value>)
    ensures
        match r {
            Some(found) => json_member(*value, key@) == Some(*found),
            None => json_member(*value, key@) is None,
        },
{
    value.get(key)
}

/// `serde_json::Value::as_array`. It hands out the elements of an array and
/// nothing for any other value; the contract gives them their name.
#[verifier::external_body]
pub(crate) fn items(value: &Value) -> (r: Option<&Vec<Value>>)
    ensures
        match r {
            Some(list) => json_items(*value) == Some(list@),
            None => json_items(*value) is None,
        },
{
    value.as_array()
}

/// `serde_json::Value::as_str`. It hands out the characters of a string and
/// nothing for any other value; the contract gives them their name.
#[verifier::external_body]
pub(crate) fn text(value: &Value) -> (r: Option<&str>)
    ensures
        match r {
            Some(characters) => json_text(*value) == Some(characters@),
            None => json_text(*value) is None,
        },
{
    value.as_str()
}

/// `serde_json::Value::as_number`. It hands out the number that a value is
/// and nothing for any other value; the contract gives it its name.
#[verifier::external_body]
pub(crate) fn number(value: &Value) -> (r: Option<&Number>)
    ensures
        match r {
            Some(found) => json_number(*value) == Some(*found),
            None => json_number(*value) is None,
        },
{
    value.as_number()
}

/// `to_string` on a `serde_json::Number`, which writes the number out in
/// decimal as its `Display` does. The text depends on the number alone; the
/// contract gives it its name.
#[verifier::external_body]
pub(crate) fn digits(number: &Number) -> (r: Vec<u8>)
    ensures
        r@ == number_digits(*number),
{
    number.to_string().into_bytes()
}

/// The decimal text of a value that is a number.
pub(crate) fn number_text(value: &Value) -> (r: Option<Vec<u8>>)
    ensures
        match r {
            Some(text) => json_number_text(*value) == Some(text@),
            None => json_number_text(*value) is None,
        },
{
    match number(value) {
        Some(found) => Some(digits(found)),
        None => None,
    }
}

} // verus!
