//! Global template variables given as `key=value` assignments: those that
//! override what is already set, and defaults that only fill gaps.

use vstd::prelude::*;
use crate::json::{chars_of, string_of_chars};
use crate::process::slice_chars;

verus! {

/// The index of the first `=` in `s` at or after `i`, or `s.len()`.
pub open spec fn first_eq(s: Seq<char>, i: int) -> int
    decreases s.len() - i,
{
    if i < 0 || i >= s.len() {
        s.len() as int
    } else if s[i] == '=' {
        i
    } else {
        first_eq(s, i + 1)
    }
}

/// The key and value of an assignment, split at its first `=`; `None`
/// when the text holds no `=`.
pub open spec fn assignment(s: Seq<char>) -> Option<(Seq<char>, Seq<char>)> {
    let i = first_eq(s, 0);
    if i < s.len() {
        Some((s.take(i), s.skip(i + 1)))
    } else {
        None
    }
}

/// The variables that a list of entries sets; a later entry of a key wins.
pub open spec fn vars_view(s: Seq<(String, String)>) -> Map<Seq<char>, Seq<char>>
    decreases s.len(),
{
    if s.len() == 0 {
        Map::empty()
    } else {
        vars_view(s.drop_last()).insert(s.last().0@, s.last().1@)
    }
}

/// The variables after applying assignments in order. With `overwrite` an
/// assignment replaces what is set; without it, it only sets a key not yet
/// set. Text without `=` changes nothing.
pub open spec fn applied(m: Map<Seq<char>, Seq<char>>, entries: Seq<String>, overwrite: bool) -> Map<
    Seq<char>,
    Seq<char>,
>
    decreases entries.len(),
{
    if entries.len() == 0 {
        m
    } else {
        let m0 = applied(m, entries.drop_last(), overwrite);
        match assignment(entries.last()@) {
            Some(kv) => if overwrite || !m0.contains_key(kv.0) {
                m0.insert(kv.0, kv.1)
            } else {
                m0
            },
            None => m0,
        }
    }
}

/// The entries that are not assignments, in order.
pub open spec fn rejected(entries: Seq<String>) -> Seq<Seq<char>>
    decreases entries.len(),
{
    if entries.len() == 0 {
        seq![]
    } else {
        let r0 = rejected(entries.drop_last());
        match assignment(entries.last()@) {
            Some(_) => r0,
            None => r0.push(entries.last()@),
        }
    }
}

proof fn lemma_first_eq_bounds(s: Seq<char>, i: int)
    requires
        0 <= i,
    ensures
        first_eq(s, i) <= s.len(),
        i <= s.len() ==> i <= first_eq(s, i),
        first_eq(s, i) < s.len() ==> s[first_eq(s, i)] == '=',
    decreases s.len() - i,
{
    if i < s.len() && s[i] != '=' {
        lemma_first_eq_bounds(s, i + 1);
    }
}

/// Splits an assignment at its first `=`.
pub fn split_assignment(s: &str) -> (r: Option<(String, String)>)
    ensures
        r is Some <==> assignment(s@) is Some,
        r is Some ==> assignment(s@) == Some((r->Some_0.0@, r->Some_0.1@)),
{
    let c = chars_of(s);
    let mut i: usize = 0;
    while i < c.len() && c[i] != '='
        invariant
            i <= c@.len(),
            c@ == s@,
            first_eq(c@, 0) == first_eq(c@, i as int),
        decreases c.len() - i,
    {
        i = i + 1;
    }
    proof { lemma_first_eq_bounds(c@, 0); }
    if i < c.len() {
        let key = string_of_chars(&slice_chars(&c, 0, i));
        let value = string_of_chars(&slice_chars(&c, i + 1, c.len()));
        assert(key@ =~= s@.take(i as int));
        assert(value@ =~= s@.skip(i + 1));
        Some((key, value))
    } else {
        None
    }
}

proof fn lemma_vars_view_keys(s: Seq<(String, String)>, k: Seq<char>)
    ensures
        vars_view(s).contains_key(k) <==> exists|j: int| 0 <= j < s.len() && s[j].0@ == k,
    decreases s.len(),
{
    if s.len() > 0 {
        lemma_vars_view_keys(s.drop_last(), k);
        if exists|j: int| 0 <= j < s.len() && s[j].0@ == k {
            let j = choose|j: int| 0 <= j < s.len() && s[j].0@ == k;
            if j < s.len() - 1 {
                assert(s.drop_last()[j] == s[j]);
            }
        }
        if exists|j: int| 0 <= j < s.drop_last().len() && s.drop_last()[j].0@ == k {
            let j = choose|j: int| 0 <= j < s.drop_last().len() && s.drop_last()[j].0@ == k;
            assert(s[j] == s.drop_last()[j]);
        }
    }
}

/// Whether `key` is set.
pub fn is_set(vars: &Vec<(String, String)>, key: &String) -> (r: bool)
    ensures
        r == vars_view(vars@).contains_key(key@),
{
    let mut i: usize = 0;
    while i < vars.len()
        invariant
            i <= vars@.len(),
            forall|j: int| 0 <= j < i ==> vars@[j].0@ != key@,
        decreases vars.len() - i,
    {
        if vars[i].0 == *key {
            proof { lemma_vars_view_keys(vars@, key@); }
            return true;
        }
        i = i + 1;
    }
    proof { lemma_vars_view_keys(vars@, key@); }
    false
}

/// Applies assignments in order: with `overwrite` each one replaces what is
/// set, without it each one only fills a key not yet set. Returns the
/// entries that hold no `=`, which change nothing.
pub fn apply_assignments(vars: &mut Vec<(String, String)>, entries: &Vec<String>, overwrite: bool) -> (r: Vec<
    String,
>)
    ensures
        vars_view(final(vars)@) == applied(vars_view(old(vars)@), entries@, overwrite),
        r@.map_values(|s: String| s@) == rejected(entries@),
{
    let ghost start = vars_view(vars@);
    let mut bad: Vec<String> = Vec::new();
    let mut i: usize = 0;
    while i < entries.len()
        invariant
            i <= entries@.len(),
            start == vars_view(old(vars)@),
            vars_view(vars@) == applied(start, entries@.take(i as int), overwrite),
            bad@.map_values(|s: String| s@) == rejected(entries@.take(i as int)),
        decreases entries.len() - i,
    {
        let ghost t = entries@.take(i as int + 1);
        assert(t.drop_last() =~= entries@.take(i as int));
        let ghost before = vars@;
        match split_assignment(entries[i].as_str()) {
            Some((key, value)) => {
                if overwrite || !is_set(vars, &key) {
                    vars.push((key, value));
                    assert(vars@.drop_last() =~= before);
                }
            },
            None => {
                bad.push(entries[i].clone());
                assert(bad@.map_values(|s: String| s@) =~= rejected(t));
            },
        }
        i = i + 1;
    }
    assert(entries@.take(entries@.len() as int) =~= entries@);
    bad
}

} // verus!
