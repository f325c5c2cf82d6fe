//! The guest side of the calling convention: what an exported entry point
//! of a sandbox module does with the request it is handed.
//!
//! An entry point decodes the request, converts each positional value to
//! the type its parameter declares (stopping at the first that fails), runs
//! the body, and encodes the outcome as the response.

use vstd::prelude::*;
use vstd::string::*;
use vstd::utf8::*;
use crate::json::{
    bool_content, bool_of_value, copy_value, i64_content, i64_of_value, json_text_of,
    string_content, string_of_value,
};
use crate::wire::{
    decode_request, encode_failure, encode_response, failure_text, json_failure_prefix,
    request_values, utf8_failure_reason,
};
use serde_json::Value;

verus! {

/// The decimal digits.
pub open spec fn digits() -> Seq<char> {
    seq!['0', '1', '2', '3', '4', '5', '6', '7', '8', '9']
}

/// The decimal text of a natural number.
pub open spec fn decimal(n: nat) -> Seq<char>
    decreases n,
{
    if n < 10 {
        seq![digits()[n as int]]
    } else {
        decimal(n / 10) + seq![digits()[(n % 10) as int]]
    }
}

/// The reason given when the request holds no value at `index`.
pub open spec fn missing_reason(index: nat) -> Seq<char> {
    "Missing parameter at index "@ + decimal(index)
}

/// The reason given when the value at `index` is not of type `ty`.
pub open spec fn conversion_reason(index: nat, ty: Seq<char>) -> Seq<char> {
    "Failed to convert parameter "@ + decimal(index) + " to "@ + ty
}

fn digit_char(d: usize) -> (r: char)
    requires
        d < 10,
    ensures
        r == digits()[d as int],
{
    let ds: [char; 10] = ['0', '1', '2', '3', '4', '5', '6', '7', '8', '9'];
    ds[d]
}

fn push_decimal(out: &mut Vec<char>, n: usize)
    ensures
        final(out)@ == old(out)@ + decimal(n as nat),
    decreases n,
{
    if n >= 10 {
        push_decimal(out, n / 10);
    }
    out.push(digit_char(n % 10));
    assert(final(out)@ =~= old(out)@ + decimal(n as nat));
}

/// The decimal text of `n`.
pub fn decimal_text(n: usize) -> (r: String)
    ensures
        r@ == decimal(n as nat),
{
    let mut out: Vec<char> = Vec::new();
    push_decimal(&mut out, n);
    assert(out@ =~= decimal(n as nat));
    crate::json::string_of_chars(&out)
}

fn indexed_reason(head: &str, index: usize, tail: &str) -> (r: String)
    ensures
        r@ == head@ + decimal(index as nat) + tail@,
{
    String::from_str(head).concat(decimal_text(index).as_str()).concat(tail)
}

/// The value at `index` of a decoded request.
pub fn arg_value(args: &Vec<Value>, index: usize) -> (r: Result<Value, String>)
    ensures
        index < args@.len() ==> r == Ok::<Value, String>(args@[index as int]),
        index >= args@.len() ==> r is Err && r->Err_0@ == missing_reason(index as nat),
{
    if index < args.len() {
        Ok(copy_value(&args[index]))
    } else {
        proof { reveal_strlit(""); }
        Err(indexed_reason("Missing parameter at index ", index, ""))
    }
}

/// The value at `index` of a decoded request, as a string.
pub fn arg_string(args: &Vec<Value>, index: usize) -> (r: Result<String, String>)
    ensures
        index >= args@.len() ==> r is Err && r->Err_0@ == missing_reason(index as nat),
        index < args@.len() ==> match string_content(args@[index as int]) {
            Some(s) => r is Ok && r->Ok_0@ == s,
            None => r is Err && r->Err_0@ == conversion_reason(index as nat, "string"@),
        },
{
    proof {
        reveal_strlit("");
        reveal_strlit(" to ");
        reveal_strlit("string");
        reveal_strlit(" to string");
    }
    if index >= args.len() {
        return Err(indexed_reason("Missing parameter at index ", index, ""));
    }
    match string_of_value(&args[index]) {
        Some(s) => Ok(s),
        None => Err(indexed_reason("Failed to convert parameter ", index, " to string")),
    }
}

/// The value at `index` of a decoded request, as an `i64`.
pub fn arg_i64(args: &Vec<Value>, index: usize) -> (r: Result<i64, String>)
    ensures
        index >= args@.len() ==> r is Err && r->Err_0@ == missing_reason(index as nat),
        index < args@.len() ==> match i64_content(args@[index as int]) {
            Some(n) => r == Ok::<i64, String>(n),
            None => r is Err && r->Err_0@ == conversion_reason(index as nat, "i64"@),
        },
{
    proof {
        reveal_strlit("");
        reveal_strlit(" to ");
        reveal_strlit("i64");
        reveal_strlit(" to i64");
    }
    if index >= args.len() {
        return Err(indexed_reason("Missing parameter at index ", index, ""));
    }
    match i64_of_value(&args[index]) {
        Some(n) => Ok(n),
        None => Err(indexed_reason("Failed to convert parameter ", index, " to i64")),
    }
}

/// The value at `index` of a decoded request, as a `bool`.
pub fn arg_bool(args: &Vec<Value>, index: usize) -> (r: Result<bool, String>)
    ensures
        index >= args@.len() ==> r is Err && r->Err_0@ == missing_reason(index as nat),
        index < args@.len() ==> match bool_content(args@[index as int]) {
            Some(b) => r == Ok::<bool, String>(b),
            None => r is Err && r->Err_0@ == conversion_reason(index as nat, "bool"@),
        },
{
    proof {
        reveal_strlit("");
        reveal_strlit(" to ");
        reveal_strlit("bool");
        reveal_strlit(" to bool");
    }
    if index >= args.len() {
        return Err(indexed_reason("Missing parameter at index ", index, ""));
    }
    match bool_of_value(&args[index]) {
        Some(b) => Ok(b),
        None => Err(indexed_reason("Failed to convert parameter ", index, " to bool")),
    }
}

/// The response text of an outcome.
pub open spec fn outcome_text(outcome: Result<Value, String>) -> Seq<char> {
    match outcome {
        Ok(v) => json_text_of(v),
        Err(reason) => failure_text(reason@),
    }
}

/// Runs one call of a guest function or filter: decodes the request, hands
/// its ordered values to `body`, and encodes what `body` returns. A request
/// that cannot be decoded never reaches `body`: its reply is the failure.
pub fn guest_call<F: Fn(Vec<Value>) -> Result<Value, String>>(request: &[u8], body: F) -> (r: Vec<u8>)
    requires
        forall|a: Vec<Value>| body.requires((a,)),
    ensures
        !valid_utf8(request@) ==> r@ == encode_utf8(failure_text(utf8_failure_reason())),
        request_values(request@) is None ==> exists|reason: String|
            r@ == encode_utf8(failure_text(reason@)) && (valid_utf8(request@) ==> json_failure_prefix().is_prefix_of(reason@)),
        request_values(request@) is Some ==> exists|a: Vec<Value>, outcome: Result<Value, String>|
            a@ == request_values(request@)->Some_0 && body.ensures((a,), outcome)
                && r@ == encode_utf8(outcome_text(outcome)),
{
    match decode_request(request) {
        Err(reason) => {
            encode_failure(&reason)
        },
        Ok(args) => {
            let outcome = body(args);
            encode_response(&outcome)
        },
    }
}

} // verus!
