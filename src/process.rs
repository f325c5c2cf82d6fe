//! The process backend: expanding a script template with the call's
//! arguments, and turning a finished process into a result.

use vstd::prelude::*;
use vstd::utf8::*;
use vstd::string::*;
use crate::binding::{bind_arguments, binding, binding_error, Param};
use crate::error::PluginError;
use crate::json::{
    chars_of, decode_utf8_bytes, json_string, json_text_of, string_content, string_of_chars,
    string_of_value, to_json_text, value_of_string,
};
use crate::wire::append_chars;
use serde_json::Value;

verus! {

/// The text that a value contributes to a script: a JSON string gives its
/// characters unquoted, any other value its JSON text.
pub open spec fn value_text(v: Value) -> Seq<char> {
    match string_content(v) {
        Some(s) => s,
        None => json_text_of(v),
    }
}

/// The text bound to `name`: that of the first binding carrying the name.
pub open spec fn text_for(b: Seq<(Seq<char>, Seq<char>)>, name: Seq<char>) -> Option<Seq<char>>
    decreases b.len(),
{
    if b.len() == 0 {
        None
    } else if b[0].0 == name {
        Some(b[0].1)
    } else {
        text_for(b.drop_first(), name)
    }
}

/// The index of the first `)` in `s` at or after `i`, or `s.len()`.
pub open spec fn first_close(s: Seq<char>, i: int) -> int
    decreases s.len() - i,
{
    if i < 0 || i >= s.len() {
        s.len() as int
    } else if s[i] == ')' {
        i
    } else {
        first_close(s, i + 1)
    }
}

/// Whether `$(` starts at position `pos`.
pub open spec fn opens_at(s: Seq<char>, pos: int) -> bool {
    0 <= pos && pos + 1 < s.len() && s[pos] == '$' && s[pos + 1] == '('
}

/// The placeholder name starting at `pos`, when a `$(name)` starts there.
pub open spec fn placeholder_at(s: Seq<char>, pos: int) -> Option<Seq<char>> {
    if opens_at(s, pos) && first_close(s, pos + 2) < s.len() {
        Some(s.subrange(pos + 2, first_close(s, pos + 2)))
    } else {
        None
    }
}

/// The script from position `pos` on, with each `$(name)` whose name is
/// bound replaced by its text. Other characters, and placeholders naming
/// nothing bound, are kept as they are.
pub open spec fn expand_from(s: Seq<char>, b: Seq<(Seq<char>, Seq<char>)>, pos: int) -> Seq<char>
    decreases s.len() - pos via expand_from_decreases
{
    if pos < 0 || pos >= s.len() {
        seq![]
    } else {
        match placeholder_at(s, pos) {
            Some(name) => match text_for(b, name) {
                Some(t) => t + expand_from(s, b, first_close(s, pos + 2) + 1),
                None => seq![s[pos]] + expand_from(s, b, pos + 1),
            },
            None => seq![s[pos]] + expand_from(s, b, pos + 1),
        }
    }
}

#[via_fn]
proof fn expand_from_decreases(s: Seq<char>, b: Seq<(Seq<char>, Seq<char>)>, pos: int) {
    if 0 <= pos < s.len() {
        lemma_first_close_bounds(s, pos + 2);
    }
}

/// The whole script with its placeholders expanded.
pub open spec fn expand(s: Seq<char>, b: Seq<(Seq<char>, Seq<char>)>) -> Seq<char> {
    expand_from(s, b, 0)
}

/// The bindings of a call: each parameter's name with its value's text.
pub open spec fn text_bindings(params: Seq<Param>, vals: Seq<Value>) -> Seq<(Seq<char>, Seq<char>)>
    recommends
        params.len() == vals.len(),
{
    Seq::new(params.len(), |i: int| (params[i].name@, value_text(vals[i])))
}

/// The name under which a filter's subject is bound in a script.
pub open spec fn subject_name() -> Seq<char> {
    seq!['v', 'a', 'l', 'u', 'e']
}

/// The binding that a filter's subject adds, after the declared ones.
pub open spec fn subject_bindings(subject: Option<Value>) -> Seq<(Seq<char>, Seq<char>)> {
    match subject {
        Some(v) => seq![(subject_name(), value_text(v))],
        None => seq![],
    }
}

/// A command ready to be run by a shell, with the environment it gets.
#[derive(Debug, Clone)]
pub struct ProcessPlan {
    pub script: String,
    pub env: Vec<(String, String)>,
}

proof fn lemma_first_close_bounds(s: Seq<char>, i: int)
    requires
        0 <= i,
    ensures
        i <= first_close(s, i) <= s.len() || (i > s.len() && first_close(s, i) == s.len()),
        first_close(s, i) < s.len() ==> s[first_close(s, i)] == ')',
        forall|k: int| i <= k < first_close(s, i) ==> s[k] != ')',
    decreases s.len() - i,
{
    if i < s.len() && s[i] != ')' {
        lemma_first_close_bounds(s, i + 1);
    }
}

fn find_close(s: &Vec<char>, start: usize) -> (r: usize)
    requires
        start <= s@.len(),
    ensures
        r == first_close(s@, start as int),
{
    let mut i = start;
    while i < s.len() && s[i] != ')'
        invariant
            start <= i <= s@.len(),
            first_close(s@, start as int) == first_close(s@, i as int),
        decreases s.len() - i,
    {
        i = i + 1;
    }
    i
}

fn find_text(b: &Vec<(String, String)>, name: &Vec<char>) -> (r: Option<String>)
    ensures
        r is Some <==> text_for(pairs_view(b@), name@) is Some,
        r is Some ==> text_for(pairs_view(b@), name@) == Some(r->Some_0@),
{
    let ghost m = pairs_view(b@);
    let mut i: usize = 0;
    assert(m.skip(0) =~= m);
    while i < b.len()
        invariant
            i <= b@.len(),
            m == pairs_view(b@),
            text_for(m, name@) == text_for(m.skip(i as int), name@),
        decreases b.len() - i,
    {
        assert(m.skip(i as int).drop_first() =~= m.skip(i as int + 1));
        let key = chars_of(b[i].0.as_str());
        if vec_eq(&key, name) {
            return Some(b[i].1.clone());
        }
        i = i + 1;
    }
    None
}

fn vec_eq(a: &Vec<char>, b: &Vec<char>) -> (r: bool)
    ensures
        r == (a@ == b@),
{
    if a.len() != b.len() {
        return false;
    }
    let mut i: usize = 0;
    while i < a.len()
        invariant
            a@.len() == b@.len(),
            i <= a@.len(),
            forall|k: int| 0 <= k < i ==> a@[k] == b@[k],
        decreases a.len() - i,
    {
        if a[i] != b[i] {
            return false;
        }
        i = i + 1;
    }
    assert(a@ =~= b@);
    true
}

pub(crate) fn slice_chars(s: &Vec<char>, from: usize, to: usize) -> (r: Vec<char>)
    requires
        from <= to <= s@.len(),
    ensures
        r@ == s@.subrange(from as int, to as int),
{
    let mut out: Vec<char> = Vec::new();
    let mut i = from;
    while i < to
        invariant
            from <= i <= to,
            to <= s@.len(),
            out@ == s@.subrange(from as int, i as int),
        decreases to - i,
    {
        out.push(s[i]);
        i = i + 1;
        assert(out@ =~= s@.subrange(from as int, i as int));
    }
    out
}

/// Expands the `$(name)` placeholders of a script with the given texts.
pub fn expand_script(script: &str, b: &Vec<(String, String)>) -> (r: String)
    ensures
        r@ == expand(script@, pairs_view(b@)),
{
    let ghost m = pairs_view(b@);
    let s = chars_of(script);
    let mut out: Vec<char> = Vec::new();
    let mut pos: usize = 0;
    while pos < s.len()
        invariant
            pos <= s@.len(),
            s@ == script@,
            m == pairs_view(b@),
            out@ + expand_from(s@, m, pos as int) == expand(s@, m),
        decreases s.len() - pos,
    {
        let mut done = false;
        if pos + 1 < s.len() && s[pos] == '$' && s[pos + 1] == '(' {
            let close = find_close(&s, pos + 2);
            proof { lemma_first_close_bounds(s@, pos + 2); }
            if close < s.len() {
                let name = slice_chars(&s, pos + 2, close);
                match find_text(b, &name) {
                    Some(t) => {
                        let ghost before = out@;
                        append_chars(&mut out, &chars_of(t.as_str()));
                        assert(before + expand_from(s@, m, pos as int) == out@ + expand_from(s@, m, close + 1))
                            by {
                            assert(out@ == before + t@);
                        }
                        pos = close + 1;
                        done = true;
                    },
                    None => {},
                }
            }
        }
        if !done {
            let ghost before = out@;
            out.push(s[pos]);
            assert(before + expand_from(s@, m, pos as int) =~= out@ + expand_from(s@, m, pos + 1));
            pos = pos + 1;
        }
    }
    string_of_chars(&out)
}

/// The text that a value contributes to a script.
pub fn text_of_value(v: &Value) -> (r: String)
    ensures
        r@ == value_text(*v),
{
    match string_of_value(v) {
        Some(s) => s,
        None => to_json_text(v),
    }
}

/// The view of a list of string pairs.
pub open spec fn pairs_view(b: Seq<(String, String)>) -> Seq<(Seq<char>, Seq<char>)> {
    b.map_values(|p: (String, String)| (p.0@, p.1@))
}

pub(crate) fn copy_pairs(b: &Vec<(String, String)>) -> (r: Vec<(String, String)>)
    ensures
        r@ == b@,
{
    let mut out: Vec<(String, String)> = Vec::new();
    let mut i: usize = 0;
    while i < b.len()
        invariant
            i <= b@.len(),
            out@.len() == i,
            forall|k: int| 0 <= k < i ==> out@[k] == b@[k],
        decreases b.len() - i,
    {
        out.push((b[i].0.clone(), b[i].1.clone()));
        i = i + 1;
    }
    assert(out@ =~= b@);
    out
}

/// Plans one process call: binds the arguments to the declared parameters,
/// expands the script's placeholders with their texts (a filter's subject
/// as `$(value)`, where no parameter of that name is declared), and passes
/// the declared environment on unchanged.
pub fn plan_process(
    script: &String,
    params: &Vec<Param>,
    env: &Vec<(String, String)>,
    args: &Vec<(String, Value)>,
    subject: Option<&Value>,
) -> (r: Result<ProcessPlan, PluginError>)
    ensures
        r is Ok <==> binding(params@, args@) is Some,
        r is Ok ==> r->Ok_0.script@ == expand(
            script@,
            text_bindings(params@, binding(params@, args@)->Some_0) + subject_bindings(
                match subject {
                    Some(v) => Some(*v),
                    None => None,
                },
            ),
        ) && r->Ok_0.env@ == env@,
        r is Err ==> r->Err_0 == binding_error(params@, args@),
{
    let vals = match bind_arguments(params, args) {
        Ok(v) => v,
        Err(e) => {
            return Err(e);
        },
    };
    let mut texts: Vec<(String, String)> = Vec::new();
    let mut i: usize = 0;
    while i < params.len()
        invariant
            i <= params@.len(),
            vals@.len() == params@.len(),
            texts@.len() == i,
            forall|k: int| 0 <= k < i ==> (#[trigger] texts@[k]).0@ == params@[k].name@ && texts@[k].1@ == value_text(vals@[k]),
        decreases params.len() - i,
    {
        let t = text_of_value(&vals[i]);
        texts.push((params[i].name.clone(), t));
        i = i + 1;
    }
    assert(pairs_view(texts@) =~= text_bindings(params@, vals@));
    let ghost declared = texts@;
    match subject {
        Some(v) => {
            let t = text_of_value(v);
            proof { reveal_strlit("value"); }
            texts.push((String::from_str("value"), t));
            assert("value"@ =~= subject_name());
            assert(pairs_view(texts@) =~= pairs_view(declared) + subject_bindings(Some(*v)));
        },
        None => {
            assert(pairs_view(texts@) =~= pairs_view(declared) + subject_bindings(None));
        },
    }
    let expanded = expand_script(script.as_str(), &texts);
    Ok(ProcessPlan { script: expanded, env: copy_pairs(env) })
}

/// The result of a finished process: its standard output, verbatim, as a
/// JSON string. An unsuccessful exit gives no result, and output that is
/// not UTF-8 is refused.
pub fn finish_process(exit_ok: bool, stdout: &[u8]) -> (r: Result<Value, PluginError>)
    ensures
        !exit_ok ==> r matches Err(PluginError::ProcessError(_)),
        exit_ok && !valid_utf8(stdout@) ==> r == Err::<Value, PluginError>(PluginError::Utf8DecodingError),
        exit_ok && valid_utf8(stdout@) ==> r == Ok::<Value, PluginError>(json_string(decode_utf8(stdout@))),
{
    if !exit_ok {
        return Err(PluginError::ProcessError(String::from_str("the process exited unsuccessfully")));
    }
    match decode_utf8_bytes(stdout) {
        Some(text) => Ok(value_of_string(text)),
        None => Err(PluginError::Utf8DecodingError),
    }
}

} // verus!
