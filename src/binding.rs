//! Binding named call arguments to a declaration's ordered parameters.

use vstd::prelude::*;
use crate::error::PluginError;
use crate::json::copy_value;
use serde_json::Value;

verus! {

/// One declared input slot of a capability.
#[derive(Debug, Clone)]
pub struct Param {
    pub name: String,
    pub description: Option<String>,
    pub default: Option<Value>,
}

/// The value bound to `name` in a list of named arguments: the first entry
/// carrying that name.
pub open spec fn lookup(args: Seq<(String, Value)>, name: Seq<char>) -> Option<Value>
    decreases args.len(),
{
    if args.len() == 0 {
        None
    } else if args[0].0@ == name {
        Some(args[0].1)
    } else {
        lookup(args.drop_first(), name)
    }
}

/// The value a parameter receives: its argument, else its default.
pub open spec fn bound_value(p: Param, args: Seq<(String, Value)>) -> Option<Value> {
    match lookup(args, p.name@) {
        Some(v) => Some(v),
        None => p.default,
    }
}

/// Whether every parameter before position `n` receives a value.
pub open spec fn all_bound_upto(params: Seq<Param>, args: Seq<(String, Value)>, n: int) -> bool {
    forall|i: int| 0 <= i < n ==> (#[trigger] bound_value(params[i], args)) is Some
}

/// The ordered values of a call, one per declared parameter, or `None` when
/// some parameter stays unbound.
pub open spec fn binding(params: Seq<Param>, args: Seq<(String, Value)>) -> Option<Seq<Value>> {
    if all_bound_upto(params, args, params.len() as int) {
        Some(Seq::new(params.len(), |i: int| bound_value(params[i], args)->Some_0))
    } else {
        None
    }
}

/// The position of the first parameter from `i` on that receives no
/// value, or the number of parameters when every one does.
pub open spec fn first_unbound_from(params: Seq<Param>, args: Seq<(String, Value)>, i: int) -> int
    decreases params.len() - i,
{
    if i < 0 || i >= params.len() {
        params.len() as int
    } else if bound_value(params[i], args) is None {
        i
    } else {
        first_unbound_from(params, args, i + 1)
    }
}

/// The error of a call whose binding fails: it names the first parameter
/// that receives no value.
pub open spec fn binding_error(params: Seq<Param>, args: Seq<(String, Value)>) -> PluginError {
    PluginError::ParameterBindingError(params[first_unbound_from(params, args, 0)].name)
}

proof fn lemma_first_unbound(params: Seq<Param>, args: Seq<(String, Value)>, k: int, i: int)
    requires
        0 <= i <= k < params.len(),
        all_bound_upto(params, args, k),
        bound_value(params[k], args) is None,
    ensures
        first_unbound_from(params, args, i) == k,
    decreases k - i,
{
    if i < k {
        assert(bound_value(params[i], args) is Some);
        lemma_first_unbound(params, args, k, i + 1);
    }
}

proof fn lemma_first_unbound_same(
    params: Seq<Param>,
    a1: Seq<(String, Value)>,
    a2: Seq<(String, Value)>,
    i: int,
)
    requires
        0 <= i,
        forall|j: int| 0 <= j < params.len() ==> #[trigger] bound_value(params[j], a1) == bound_value(params[j], a2),
    ensures
        first_unbound_from(params, a1, i) == first_unbound_from(params, a2, i),
    decreases params.len() - i,
{
    if i < params.len() {
        assert(bound_value(params[i], a1) == bound_value(params[i], a2));
        lemma_first_unbound_same(params, a1, a2, i + 1);
    }
}

/// Whether no two arguments carry the same name.
pub open spec fn names_unique(args: Seq<(String, Value)>) -> bool {
    forall|i: int, j: int|
        0 <= i < args.len() && 0 <= j < args.len() && #[trigger] args[i].0@ == #[trigger] args[j].0@
            ==> i == j
}

/// Finds the argument named `name`.
pub fn find_argument(args: &Vec<(String, Value)>, name: &String) -> (r: Option<Value>)
    ensures
        r == lookup(args@, name@),
{
    let mut i: usize = 0;
    assert(args@.skip(0) =~= args@);
    while i < args.len()
        invariant
            i <= args.len(),
            lookup(args@, name@) == lookup(args@.skip(i as int), name@),
        decreases args.len() - i,
    {
        assert(args@.skip(i as int).drop_first() =~= args@.skip(i as int + 1));
        if args[i].0 == *name {
            return Some(copy_value(&args[i].1));
        }
        i = i + 1;
    }
    None
}

/// Binds the named arguments of a call to the declared parameters, in
/// declaration order. A parameter without an argument takes its default;
/// the first one with neither is reported by name.
pub fn bind_arguments(params: &Vec<Param>, args: &Vec<(String, Value)>) -> (r: Result<Vec<Value>, PluginError>)
    ensures
        r is Ok <==> binding(params@, args@) is Some,
        r is Ok ==> binding(params@, args@) == Some(r->Ok_0@),
        r is Err ==> r->Err_0 == binding_error(params@, args@),
{
    let mut out: Vec<Value> = Vec::new();
    let mut i: usize = 0;
    while i < params.len()
        invariant
            i <= params.len(),
            all_bound_upto(params@, args@, i as int),
            out@.len() == i,
            forall|j: int| 0 <= j < i ==> out@[j] == bound_value(params@[j], args@)->Some_0,
        decreases params.len() - i,
    {
        let p = &params[i];
        match find_argument(args, &p.name) {
            Some(v) => out.push(v),
            None => match &p.default {
                Some(d) => out.push(copy_value(d)),
                None => {
                    assert(bound_value(params@[i as int], args@) is None);
                    proof { lemma_first_unbound(params@, args@, i as int, 0); }
                    return Err(PluginError::ParameterBindingError(p.name.clone()));
                },
            },
        }
        i = i + 1;
    }
    assert(binding(params@, args@) == Some(out@)) by {
        assert(out@ =~= Seq::new(params@.len(), |j: int| bound_value(params@[j], args@)->Some_0));
    }
    Ok(out)
}

proof fn lemma_lookup_found(args: Seq<(String, Value)>, name: Seq<char>)
    ensures
        lookup(args, name) is Some ==> exists|i: int|
            0 <= i < args.len() && args[i].0@ == name && args[i].1 == lookup(args, name)->Some_0,
    decreases args.len(),
{
    if args.len() > 0 && args[0].0@ != name {
        lemma_lookup_found(args.drop_first(), name);
        if lookup(args, name) is Some {
            let i = choose|i: int|
                0 <= i < args.drop_first().len() && args.drop_first()[i].0@ == name
                    && args.drop_first()[i].1 == lookup(args, name)->Some_0;
            assert(args[i + 1] == args.drop_first()[i]);
        }
    }
}

proof fn lemma_lookup_unique(args: Seq<(String, Value)>, name: Seq<char>, i: int)
    requires
        names_unique(args),
        0 <= i < args.len(),
        args[i].0@ == name,
    ensures
        lookup(args, name) == Some(args[i].1),
    decreases args.len(),
{
    if i > 0 {
        assert(args[0].0@ != name);
        let rest = args.drop_first();
        assert(rest[i - 1] == args[i]);
        assert forall|a: int, b: int|
            0 <= a < rest.len() && 0 <= b < rest.len() && #[trigger] rest[a].0@ == #[trigger] rest[b].0@
            implies a == b by {
            assert(rest[a] == args[a + 1] && rest[b] == args[b + 1]);
        }
        lemma_lookup_unique(rest, name, i - 1);
    }
}

proof fn lemma_lookup_carries_over(a1: Seq<(String, Value)>, a2: Seq<(String, Value)>, name: Seq<char>)
    requires
        names_unique(a2),
        forall|x: (String, Value)| a1.contains(x) ==> a2.contains(x),
        lookup(a1, name) is Some,
    ensures
        lookup(a2, name) == lookup(a1, name),
{
    lemma_lookup_found(a1, name);
    let i = choose|i: int| 0 <= i < a1.len() && a1[i].0@ == name && a1[i].1 == lookup(a1, name)->Some_0;
    assert(a1.contains(a1[i]));
    let j = choose|j: int| 0 <= j < a2.len() && a2[j] == a1[i];
    lemma_lookup_unique(a2, name, j);
}

/// The order in which named arguments are given never matters: two argument
/// lists with distinct names and the same entries bind every parameter list
/// to the same ordered values, or fail on both with the same error.
pub proof fn lemma_binding_ignores_argument_order(
    params: Seq<Param>,
    a1: Seq<(String, Value)>,
    a2: Seq<(String, Value)>,
)
    requires
        names_unique(a1),
        names_unique(a2),
        forall|x: (String, Value)| a1.contains(x) <==> a2.contains(x),
    ensures
        binding(params, a1) == binding(params, a2),
        binding_error(params, a1) == binding_error(params, a2),
{
    assert forall|i: int| 0 <= i < params.len() implies #[trigger] bound_value(params[i], a1)
        == bound_value(params[i], a2) by {
        let n = params[i].name@;
        if lookup(a1, n) is Some {
            lemma_lookup_carries_over(a1, a2, n);
        } else if lookup(a2, n) is Some {
            lemma_lookup_carries_over(a2, a1, n);
        }
    }
    if all_bound_upto(params, a1, params.len() as int) {
        assert forall|i: int| 0 <= i < params.len() implies (#[trigger] bound_value(params[i], a2)) is Some by {
            assert(bound_value(params[i], a1) is Some);
        }
    }
    if all_bound_upto(params, a2, params.len() as int) {
        assert forall|i: int| 0 <= i < params.len() implies (#[trigger] bound_value(params[i], a1)) is Some by {
            assert(bound_value(params[i], a2) is Some);
        }
    }
    assert(Seq::new(params.len(), |i: int| bound_value(params[i], a1)->Some_0)
        =~= Seq::new(params.len(), |i: int| bound_value(params[i], a2)->Some_0));
    lemma_first_unbound_same(params, a1, a2, 0);
}

} // verus!
