//! The wire envelopes that cross the sandbox boundary.
//!
//! A request is the UTF-8 text `{"params":[v0,v1,...]}`, one JSON value per
//! binding slot in order. A response is either the JSON text of a success
//! value or `{"reason":"..."}` for a failure.

use vstd::prelude::*;
use vstd::utf8::*;
use vstd::string::*;
use vstd::slice::slice_to_vec;
use crate::error::PluginError;
use crate::json::{
    array_items, array_of, chars_of, decode_utf8_bytes, json_string, json_text_of, member, member_of,
    parse_json, parsed_json, string_content, string_of_chars, string_of_value, to_json_text,
    value_of_string,
};
use serde_json::Value;

verus! {

/// The field of the request envelope that holds the ordered values.
pub open spec fn params_key() -> Seq<char> {
    seq!['p', 'a', 'r', 'a', 'm', 's']
}

/// The field of the response envelope that holds a failure reason.
pub open spec fn reason_key() -> Seq<char> {
    seq!['r', 'e', 'a', 's', 'o', 'n']
}

/// The fixed reason a guest gives for a buffer that is not UTF-8.
pub open spec fn utf8_failure_reason() -> Seq<char> {
    "Failed to convert byte slice to string"@
}

/// The prefix of the reason a guest gives for text that is not a request.
pub open spec fn json_failure_prefix() -> Seq<char> {
    "Failed to deserialize JSON: "@
}

/// `"key":` as JSON object text, after an opening brace.
pub open spec fn field_head(key: Seq<char>) -> Seq<char> {
    seq!['{', '"'] + key + seq!['"', ':']
}

/// The JSON texts of the values, separated by commas.
pub open spec fn joined_json(vs: Seq<Value>) -> Seq<char>
    decreases vs.len(),
{
    if vs.len() == 0 {
        seq![]
    } else if vs.len() == 1 {
        json_text_of(vs[0])
    } else {
        joined_json(vs.drop_last()) + seq![','] + json_text_of(vs.last())
    }
}

/// The text of the request envelope for the given ordered values.
pub open spec fn request_text(vs: Seq<Value>) -> Seq<char> {
    field_head(params_key()) + seq!['['] + joined_json(vs) + seq![']', '}']
}

/// The text of the failure response for a reason.
pub open spec fn failure_text(reason: Seq<char>) -> Seq<char> {
    field_head(reason_key()) + json_text_of(json_string(reason)) + seq!['}']
}

/// The ordered values that a request text carries, when it is one.
pub open spec fn envelope_values(t: Seq<char>) -> Option<Seq<Value>> {
    match parsed_json(t) {
        None => None,
        Some(v) => match member_of(v, params_key()) {
            None => None,
            Some(p) => array_of(p),
        },
    }
}

/// The ordered values that a request buffer carries, when it is one.
pub open spec fn request_values(b: Seq<u8>) -> Option<Seq<Value>> {
    if !valid_utf8(b) {
        None
    } else {
        envelope_values(decode_utf8(b))
    }
}

/// The byte layer of the envelope loses nothing: the bytes of an encoded
/// request are valid UTF-8, and the guest decodes them as exactly the text
/// that the host wrote.
pub proof fn lemma_request_bytes_carry_request_text(vs: Seq<Value>)
    ensures
        valid_utf8(encode_utf8(request_text(vs))),
        request_values(encode_utf8(request_text(vs))) == envelope_values(request_text(vs)),
{
    encode_utf8_valid_utf8(request_text(vs));
    encode_utf8_decode_utf8(request_text(vs));
}

/// The failure reason that a parsed response carries, when it carries one.
pub open spec fn failure_reason_of(v: Value) -> Option<Seq<char>> {
    match member_of(v, reason_key()) {
        None => None,
        Some(r) => string_content(r),
    }
}

pub(crate) fn append_chars(out: &mut Vec<char>, s: &Vec<char>)
    ensures
        final(out)@ == old(out)@ + s@,
{
    let mut i: usize = 0;
    while i < s.len()
        invariant
            i <= s.len(),
            out@ == old(out)@ + s@.take(i as int),
        decreases s.len() - i,
    {
        out.push(s[i]);
        i = i + 1;
        assert(s@.take(i as int) =~= s@.take(i - 1) + seq![s@[i - 1]]);
    }
    assert(s@.take(s@.len() as int) =~= s@);
}

fn push_field_head(out: &mut Vec<char>, key: &str)
    ensures
        final(out)@ == old(out)@ + field_head(key@),
{
    out.push('{');
    out.push('"');
    append_chars(out, &chars_of(key));
    out.push('"');
    out.push(':');
    assert(final(out)@ =~= old(out)@ + field_head(key@));
}

fn utf8_bytes(c: &Vec<char>) -> (r: Vec<u8>)
    ensures
        r@ == encode_utf8(c@),
{
    let s = string_of_chars(c);
    slice_to_vec(s.as_str().as_bytes())
}

/// Encodes the ordered values of a call as a request buffer.
pub fn encode_request(values: &Vec<Value>) -> (r: Vec<u8>)
    ensures
        r@ == encode_utf8(request_text(values@)),
{
    let mut out: Vec<char> = Vec::new();
    push_field_head(&mut out, "params");
    proof { reveal_strlit("params"); }
    assert("params"@ =~= params_key());
    out.push('[');
    let ghost start = out@;
    let mut i: usize = 0;
    while i < values.len()
        invariant
            i <= values.len(),
            out@ == start + joined_json(values@.take(i as int)),
        decreases values.len() - i,
    {
        if i > 0 {
            out.push(',');
        }
        let text = to_json_text(&values[i]);
        append_chars(&mut out, &chars_of(text.as_str()));
        proof {
            let t = values@.take(i + 1);
            assert(t.drop_last() =~= values@.take(i as int));
            assert(t.last() == values@[i as int]);
            if i == 0 {
                assert(values@.take(0) =~= Seq::<Value>::empty());
            }
        }
        i = i + 1;
    }
    assert(values@.take(values@.len() as int) =~= values@);
    out.push(']');
    out.push('}');
    assert(out@ =~= request_text(values@));
    utf8_bytes(&out)
}

/// Encodes a success value as a response buffer.
pub fn encode_success(v: &Value) -> (r: Vec<u8>)
    ensures
        r@ == encode_utf8(json_text_of(*v)),
{
    let text = to_json_text(v);
    slice_to_vec(text.as_str().as_bytes())
}

/// Encodes a failure reason as a response buffer.
pub fn encode_failure(reason: &String) -> (r: Vec<u8>)
    ensures
        r@ == encode_utf8(failure_text(reason@)),
{
    let mut out: Vec<char> = Vec::new();
    push_field_head(&mut out, "reason");
    proof { reveal_strlit("reason"); }
    assert("reason"@ =~= reason_key());
    let v = value_of_string(reason.clone());
    let text = to_json_text(&v);
    append_chars(&mut out, &chars_of(text.as_str()));
    out.push('}');
    assert(out@ =~= failure_text(reason@));
    utf8_bytes(&out)
}

/// Encodes the outcome of a guest call as a response buffer.
pub fn encode_response(outcome: &Result<Value, String>) -> (r: Vec<u8>)
    ensures
        r@ == match outcome {
            Ok(v) => encode_utf8(json_text_of(*v)),
            Err(reason) => encode_utf8(failure_text(reason@)),
        },
{
    match outcome {
        Ok(v) => encode_success(v),
        Err(reason) => encode_failure(reason),
    }
}

/// Guest side: decodes a request buffer into its ordered values, or the
/// reason for which it is not one. A buffer that is not UTF-8 always gives
/// the same fixed reason.
pub fn decode_request(b: &[u8]) -> (r: Result<Vec<Value>, String>)
    ensures
        r is Ok <==> request_values(b@) is Some,
        r is Ok ==> request_values(b@) == Some(r->Ok_0@),
        !valid_utf8(b@) ==> r is Err && r->Err_0@ == utf8_failure_reason(),
        valid_utf8(b@) && r is Err ==> json_failure_prefix().is_prefix_of(r->Err_0@),
{
    let text = match decode_utf8_bytes(b) {
        Some(t) => t,
        None => {
            return Err(String::from_str("Failed to convert byte slice to string"));
        },
    };
    let v = match parse_json(text.as_str()) {
        Ok(v) => v,
        Err(msg) => {
            let reason = String::from_str("Failed to deserialize JSON: ").concat(msg.as_str());
            assert(json_failure_prefix().is_prefix_of(reason@)) by {
                assert(reason@.subrange(0, json_failure_prefix().len() as int) =~= json_failure_prefix());
            }
            return Err(reason);
        },
    };
    proof { reveal_strlit("params"); }
    assert("params"@ =~= params_key());
    let items = match member(&v, "params") {
        Some(p) => array_items(&p),
        None => None,
    };
    match items {
        Some(items) => Ok(items),
        None => {
            let reason = String::from_str("Failed to deserialize JSON: ").concat("expected an array under `params`");
            assert(json_failure_prefix().is_prefix_of(reason@)) by {
                assert(reason@.subrange(0, json_failure_prefix().len() as int) =~= json_failure_prefix());
            }
            Err(reason)
        },
    }
}

/// Host side: decodes a response buffer into the call's result. A response
/// carrying a string `reason` is the guest's failure.
pub fn decode_response(b: &[u8]) -> (r: Result<Value, PluginError>)
    ensures
        !valid_utf8(b@) ==> r == Err::<Value, PluginError>(PluginError::Utf8DecodingError),
        valid_utf8(b@) ==> match parsed_json(decode_utf8(b@)) {
            None => r matches Err(PluginError::DeserializationError(_)),
            Some(v) => match failure_reason_of(v) {
                Some(reason) => r matches Err(PluginError::SandboxTrapError(m)) && m@ == reason,
                None => r == Ok::<Value, PluginError>(v),
            },
        },
{
    let text = match decode_utf8_bytes(b) {
        Some(t) => t,
        None => {
            return Err(PluginError::Utf8DecodingError);
        },
    };
    let v = match parse_json(text.as_str()) {
        Ok(v) => v,
        Err(msg) => {
            return Err(PluginError::DeserializationError(msg));
        },
    };
    proof { reveal_strlit("reason"); }
    assert("reason"@ =~= reason_key());
    let reason = match member(&v, "reason") {
        Some(m) => string_of_value(&m),
        None => None,
    };
    match reason {
        Some(m) => Err(PluginError::SandboxTrapError(m)),
        None => Ok(v),
    }
}

} // verus!
