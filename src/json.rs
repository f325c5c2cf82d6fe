//! JSON values as carried by the library, and the calls into `serde_json`
//! that the rest of the crate relies on.

use vstd::prelude::*;
use vstd::utf8::*;
use vstd::string::{axiom_spec_iter, next_postcondition};
use vstd::std_specs::iter::IteratorSpec;

verus! {



#[verifier::external_type_specification]
#[verifier::external_body]
pub struct ExValue(serde_json::Value);

/// The compact JSON text of a value.
pub uninterp spec fn json_text_of(v: serde_json::Value) -> Seq<char>;

/// The characters of a value when it is a JSON string, `None` otherwise.
pub uninterp spec fn string_content(v: serde_json::Value) -> Option<Seq<char>>;

/// The JSON string value holding the given characters.
pub uninterp spec fn json_string(s: Seq<char>) -> serde_json::Value;

/// The value that a JSON text denotes, `None` when the text is not JSON.
pub uninterp spec fn parsed_json(s: Seq<char>) -> Option<serde_json::Value>;

/// The member stored under `key` when the value is an object holding one.
pub uninterp spec fn member_of(v: serde_json::Value, key: Seq<char>) -> Option<serde_json::Value>;

/// The elements of a value when it is a JSON array, `None` otherwise.
pub uninterp spec fn array_of(v: serde_json::Value) -> Option<Seq<serde_json::Value>>;

/// The integer of a value when it is a JSON number that fits an `i64`.
pub uninterp spec fn i64_content(v: serde_json::Value) -> Option<i64>;

/// The boolean of a value when it is a JSON boolean.
pub uninterp spec fn bool_content(v: serde_json::Value) -> Option<bool>;

/// Relies on `serde_json::Value::as_i64`.
#[verifier::external_body]
pub(crate) fn i64_of_value(v: &serde_json::Value) -> (r: Option<i64>)
    ensures
        r == i64_content(*v),
{
    v.as_i64()
}

/// Relies on `serde_json::Value::as_bool`.
#[verifier::external_body]
pub(crate) fn bool_of_value(v: &serde_json::Value) -> (r: Option<bool>)
    ensures
        r == bool_content(*v),
{
    v.as_bool()
}

/// Relies on `serde_json::Value`'s derived `Clone`: the copy is the same JSON value.
#[verifier::external_body]
pub(crate) fn copy_value(v: &serde_json::Value) -> (r: serde_json::Value)
    ensures
        r == *v,
{
    v.clone()
}

/// Relies on `serde_json::Value`'s `Display`, which writes the compact JSON text.
#[verifier::external_body]
pub(crate) fn to_json_text(v: &serde_json::Value) -> (r: String)
    ensures
        r@ == json_text_of(*v),
{
    v.to_string()
}

/// Relies on `serde_json::Value::as_str`: the characters of a JSON string.
#[verifier::external_body]
pub(crate) fn string_of_value(v: &serde_json::Value) -> (r: Option<String>)
    ensures
        r is Some <==> string_content(*v) is Some,
        r is Some ==> string_content(*v) == Some(r->Some_0@),
{
    v.as_str().map(|s| s.to_string())
}

/// Relies on the `serde_json::Value::String` variant: a JSON string holding `s`.
#[verifier::external_body]
pub(crate) fn value_of_string(s: String) -> (r: serde_json::Value)
    ensures
        r == json_string(s@),
        string_content(r) == Some(s@),
{
    serde_json::Value::String(s)
}

/// Relies on `serde_json::from_str::<serde_json::Value>`; the error is its message.
#[verifier::external_body]
pub(crate) fn parse_json(s: &str) -> (r: Result<serde_json::Value, String>)
    ensures
        r is Ok <==> parsed_json(s@) is Some,
        r is Ok ==> parsed_json(s@) == Some(r->Ok_0),
{
    serde_json::from_str::<serde_json::Value>(s).map_err(|e| e.to_string())
}

/// Relies on `serde_json::Value::get` with a string key, and `Clone`.
#[verifier::external_body]
pub(crate) fn member(v: &serde_json::Value, key: &str) -> (r: Option<serde_json::Value>)
    ensures
        r == member_of(*v, key@),
{
    v.get(key).cloned()
}

/// Relies on `serde_json::Value::as_array`, and `Clone` of the elements.
#[verifier::external_body]
pub(crate) fn array_items(v: &serde_json::Value) -> (r: Option<Vec<serde_json::Value>>)
    ensures
        r is Some <==> array_of(*v) is Some,
        r is Some ==> array_of(*v) == Some(r->Some_0@),
{
    v.as_array().cloned()
}

/// Relies on `std::str::from_utf8`: `Some` exactly for valid UTF-8, holding
/// the characters that the bytes encode.
#[verifier::external_body]
pub(crate) fn decode_utf8_bytes(b: &[u8]) -> (r: Option<String>)
    ensures
        r is Some <==> valid_utf8(b@),
        r is Some ==> r->Some_0@ == decode_utf8(b@),
{
    std::str::from_utf8(b).ok().map(|s| s.to_string())
}

/// The characters of a string, in order.
pub(crate) fn chars_of(s: &str) -> (r: Vec<char>)
    ensures
        r@ == s@,
{
    broadcast use axiom_spec_iter, next_postcondition;

    let mut it = s.chars();
    let mut out: Vec<char> = Vec::new();
    loop
        invariant
            out@ + IteratorSpec::remaining(&it) == s@,
            IteratorSpec::decrease(&it) is Some,
        decreases IteratorSpec::decrease(&it)->0,
    {
        match it.next() {
            Some(c) => {
                out.push(c);
            },
            None => {
                assert(out@ =~= s@);
                return out;
            },
        }
    }
}

/// Relies on `String`'s `FromIterator<&char>`: the characters, in order.
#[verifier::external_body]
pub(crate) fn string_of_chars(c: &Vec<char>) -> (r: String)
    ensures
        r@ == c@,
{
    c.iter().collect()
}

} // verus!
