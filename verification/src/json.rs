//! Reading numbers out of a JSON document held as a `serde_json::Value`.

use vstd::prelude::*;

verus! {

/// Makes `serde_json::Value`, a JSON document, known as an opaque type.
#[verifier::external_type_specification]
#[verifier::external_body]
pub struct ExJsonValue(serde_json::Value);

/// The members of a JSON object whose value is an integer that fits `i64`,
/// by key. Empty for a value that is no object.
pub uninterp spec fn json_integers(value: serde_json::Value) -> Map<Seq<char>, i64>;

/// The integer under `key`, if `value` is an object that has one there.
pub open spec fn integer_at(value: serde_json::Value, key: Seq<char>) -> Option<i64> {
    if json_integers(value).contains_key(key) {
        Some(json_integers(value)[key])
    } else {
        None
    }
}

/// The integer that `value` holds under `key`.
///
/// Trusted: the body indexes the value by `key` (`serde_json::Value`'s
/// `Index<&str>`, which yields `Value::Null` when the value is no object or
/// lacks the key, and never panics on a shared reference) and calls
/// `Value::as_i64`, which returns the number if it is an integer in the range
/// of `i64` and `None` for anything else. The contract says the same through
/// `json_integers`.
#[verifier::external_body]
pub(crate) fn integer_member(value: &serde_json::Value, key: &str) -> (r: Option<i64>)
    ensures
        r is Some <==> json_integers(*value).contains_key(key@),
        r is Some ==> r.unwrap() == json_integers(*value)[key@],
{
    value[key].as_i64()
}

/// `text` written as a JSON string: in double quotes, with the characters
/// that JSON does not take as they are written as escapes.
pub uninterp spec fn json_string(text: Seq<char>) -> Seq<char>;

/// `text` as a JSON string.
///
/// Trusted: the body makes a `serde_json::Value::String` of the text and
/// writes it with the value's `Display`, which prints compact JSON and
/// cannot fail for a string. The contract only names that result.
#[verifier::external_body]
pub(crate) fn quote(text: &str) -> (r: String)
    ensures
        r@ == json_string(text@),
{
    serde_json::Value::from(text).to_string()
}

} // verus!
