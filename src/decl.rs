//! Capability declarations, and the executables built from them.

use vstd::prelude::*;
use vstd::utf8::*;
use crate::binding::{binding, binding_error, names_unique, lemma_binding_ignores_argument_order, Param};
use crate::error::PluginError;
use crate::json::copy_value;
use crate::process::{copy_pairs, expand, plan_process, subject_bindings, text_bindings, ProcessPlan};
use crate::wire::{encode_request, request_text};
use serde_json::Value;

verus! {

/// A reference to a sandbox module: where it is, and the export to call
/// (the capability's own name when none is given).
#[derive(Debug, Clone)]
pub struct Wasm {
    pub path: String,
    pub entry: Option<String>,
}

/// A declared function.
#[derive(Debug, Clone)]
pub struct FunctionDeclartion {
    pub name: String,
    pub params: Option<Vec<Param>>,
    pub env: Option<Vec<(String, String)>>,
    pub description: Option<String>,
    pub wasm: Option<Wasm>,
    pub script: Option<String>,
}

/// A declared filter.
#[derive(Debug, Clone)]
pub struct FilterDeclaration {
    pub name: String,
    pub params: Option<Vec<Param>>,
    pub env: Option<Vec<(String, String)>>,
    pub description: Option<String>,
    pub wasm: Option<Wasm>,
    pub script: Option<String>,
}

/// The declarations of one plugin file.
#[derive(Debug, Clone)]
pub struct Plugin {
    pub functions: Option<Vec<FunctionDeclartion>>,
    pub filters: Option<Vec<FilterDeclaration>>,
}

/// How a capability runs, fixed once when it is created.
#[derive(Debug, Clone)]
pub enum Executable {
    Sandbox { module: Wasm, params: Vec<Param> },
    Process { script: String, params: Vec<Param>, env: Vec<(String, String)> },
}

/// A callable function of the template engine.
#[derive(Debug, Clone)]
pub struct ExecutableFunction {
    pub executor: Executable,
    pub name: String,
}

/// A callable filter of the template engine.
#[derive(Debug, Clone)]
pub struct ExecutableFilter {
    pub executor: Executable,
    pub name: String,
}

/// One call, ready to be carried out: a request for a sandbox module's
/// export, or a script for a shell.
#[derive(Debug, Clone)]
pub enum Invocation {
    Sandbox { path: String, entry: String, request: Vec<u8> },
    Process(ProcessPlan),
}

/// The declared parameters, none when the list is absent.
pub open spec fn declared_params(p: Option<Vec<Param>>) -> Seq<Param> {
    match p {
        Some(v) => v@,
        None => seq![],
    }
}

/// The declared environment, empty when absent.
pub open spec fn declared_env(e: Option<Vec<(String, String)>>) -> Seq<(String, String)> {
    match e {
        Some(v) => v@,
        None => seq![],
    }
}

/// Whether `e` is the executable for the given backend configuration: the
/// sandbox module when there is one, else the script.
pub open spec fn executable_for(
    e: Executable,
    wasm: Option<Wasm>,
    script: Option<String>,
    params: Option<Vec<Param>>,
    env: Option<Vec<(String, String)>>,
) -> bool {
    match wasm {
        Some(w) => e matches Executable::Sandbox { module, params: ps } && module == w && ps@
            == declared_params(params),
        None => match script {
            Some(s) => e matches Executable::Process { script: sc, params: ps, env: en } && sc == s
                && ps@ == declared_params(params) && en@ == declared_env(env),
            None => false,
        },
    }
}

/// The export that a sandbox call enters.
pub open spec fn entry_of(module: Wasm, name: Seq<char>) -> Seq<char> {
    match module.entry {
        Some(e) => e@,
        None => name,
    }
}

/// Whether `r` is the invocation that `e` makes for a call with `args`,
/// where a filter's subject fills the first slot of a sandbox request and
/// is bound as `$(value)` in a script.
pub open spec fn invocation_for(
    e: Executable,
    name: Seq<char>,
    args: Seq<(String, Value)>,
    subject: Option<Value>,
    r: Result<Invocation, PluginError>,
) -> bool {
    match e {
        Executable::Sandbox { module, params } => match binding(params@, args) {
            None => r == Err::<Invocation, PluginError>(binding_error(params@, args)),
            Some(vs) => r matches Ok(Invocation::Sandbox { path, entry, request }) && path == module.path
                && entry@ == entry_of(module, name) && request@ == encode_utf8(
                request_text(
                    match subject {
                        Some(v) => seq![v] + vs,
                        None => vs,
                    },
                ),
            ),
        },
        Executable::Process { script, params, env } => match binding(params@, args) {
            None => r == Err::<Invocation, PluginError>(binding_error(params@, args)),
            Some(vs) => r matches Ok(Invocation::Process(plan)) && plan.script@ == expand(
                script@,
                text_bindings(params@, vs) + subject_bindings(subject),
            ) && plan.env@ == env@,
        },
    }
}

/// What a prepared call carries, as plain values.
pub open spec fn invocation_view(i: Invocation) -> (Seq<char>, Seq<char>, Seq<u8>, Seq<(String, String)>) {
    match i {
        Invocation::Sandbox { path, entry, request } => (path@, entry@, request@, seq![]),
        Invocation::Process(plan) => (seq![], plan.script@, seq![], plan.env@),
    }
}

/// A call depends on its executable and its own arguments alone: two calls
/// with the same arguments and subject, wherever and whenever they are
/// made, prepare the same work or fail alike. Nothing of one call can reach
/// another, since an executable is never changed by a call.
pub proof fn lemma_calls_are_independent(
    e: Executable,
    name: Seq<char>,
    args: Seq<(String, Value)>,
    subject: Option<Value>,
    r1: Result<Invocation, PluginError>,
    r2: Result<Invocation, PluginError>,
)
    requires
        invocation_for(e, name, args, subject, r1),
        invocation_for(e, name, args, subject, r2),
    ensures
        r1 is Ok <==> r2 is Ok,
        r1 is Ok ==> invocation_view(r1->Ok_0) == invocation_view(r2->Ok_0),
        r1 is Err ==> r1 == r2,
{
}

/// The order of a call's named arguments never matters: with distinct names
/// and the same entries, two calls prepare the same work, or fail with the
/// same error.
pub proof fn lemma_call_ignores_argument_order(
    e: Executable,
    name: Seq<char>,
    a1: Seq<(String, Value)>,
    a2: Seq<(String, Value)>,
    subject: Option<Value>,
    r1: Result<Invocation, PluginError>,
    r2: Result<Invocation, PluginError>,
)
    requires
        names_unique(a1),
        names_unique(a2),
        forall|x: (String, Value)| a1.contains(x) <==> a2.contains(x),
        invocation_for(e, name, a1, subject, r1),
        invocation_for(e, name, a2, subject, r2),
    ensures
        r1 is Ok <==> r2 is Ok,
        r1 is Ok ==> invocation_view(r1->Ok_0) == invocation_view(r2->Ok_0),
        r1 is Err ==> r1 == r2,
{
    match e {
        Executable::Sandbox { module, params } => {
            lemma_binding_ignores_argument_order(params@, a1, a2);
        },
        Executable::Process { script, params, env } => {
            lemma_binding_ignores_argument_order(params@, a1, a2);
        },
    }
}

fn copy_string_option(s: &Option<String>) -> (r: Option<String>)
    ensures
        r == *s,
{
    match s {
        Some(x) => Some(x.clone()),
        None => None,
    }
}

fn copy_wasm(w: &Wasm) -> (r: Wasm)
    ensures
        r == *w,
{
    Wasm { path: w.path.clone(), entry: copy_string_option(&w.entry) }
}

fn copy_params(ps: &Option<Vec<Param>>) -> (r: Vec<Param>)
    ensures
        r@ == declared_params(*ps),
{
    let mut out: Vec<Param> = Vec::new();
    match ps {
        Some(ps) => {
            let mut i: usize = 0;
            while i < ps.len()
                invariant
                    i <= ps@.len(),
                    out@ == ps@.take(i as int),
                decreases ps.len() - i,
            {
                let p = &ps[i];
                let default = match &p.default {
                    Some(d) => Some(copy_value(d)),
                    None => None,
                };
                out.push(
                    Param {
                        name: p.name.clone(),
                        description: copy_string_option(&p.description),
                        default,
                    },
                );
                i = i + 1;
                assert(out@ =~= ps@.take(i as int));
            }
            assert(ps@.take(ps@.len() as int) =~= ps@);
        },
        None => {},
    }
    out
}

fn copy_env(e: &Option<Vec<(String, String)>>) -> (r: Vec<(String, String)>)
    ensures
        r@ == declared_env(*e),
{
    match e {
        Some(v) => copy_pairs(v),
        None => Vec::new(),
    }
}

fn select_executable(
    wasm: &Option<Wasm>,
    script: &Option<String>,
    params: &Option<Vec<Param>>,
    env: &Option<Vec<(String, String)>>,
) -> (r: Result<Executable, PluginError>)
    ensures
        r is Err <==> wasm is None && script is None,
        r is Err ==> r->Err_0 == PluginError::BackendConfigError,
        r is Ok ==> executable_for(r->Ok_0, *wasm, *script, *params, *env),
{
    match wasm {
        Some(w) => Ok(Executable::Sandbox { module: copy_wasm(w), params: copy_params(params) }),
        None => match script {
            Some(s) => Ok(
                Executable::Process { script: s.clone(), params: copy_params(params), env: copy_env(env) },
            ),
            None => Err(PluginError::BackendConfigError),
        },
    }
}

impl Executable {
    /// Prepares one call: binds the arguments, then builds the sandbox
    /// request or the process plan.
    pub fn prepare(&self, name: &String, args: &Vec<(String, Value)>, subject: Option<&Value>) -> (r: Result<
        Invocation,
        PluginError,
    >)
        ensures
            invocation_for(
                *self,
                name@,
                args@,
                match subject {
                    Some(v) => Some(*v),
                    None => None,
                },
                r,
            ),
    {
        match self {
            Executable::Sandbox { module, params } => {
                let vals = match crate::binding::bind_arguments(params, args) {
                    Ok(v) => v,
                    Err(e) => {
                        return Err(e);
                    },
                };
                let slots = match subject {
                    Some(v) => {
                        let mut s: Vec<Value> = Vec::new();
                        s.push(copy_value(v));
                        let mut i: usize = 0;
                        while i < vals.len()
                            invariant
                                i <= vals@.len(),
                                s@ == seq![*v] + vals@.take(i as int),
                            decreases vals.len() - i,
                        {
                            s.push(copy_value(&vals[i]));
                            i = i + 1;
                            assert(s@ =~= seq![*v] + vals@.take(i as int));
                        }
                        assert(vals@.take(vals@.len() as int) =~= vals@);
                        s
                    },
                    None => vals,
                };
                let entry = match &module.entry {
                    Some(e) => e.clone(),
                    None => name.clone(),
                };
                Ok(Invocation::Sandbox { path: module.path.clone(), entry, request: encode_request(&slots) })
            },
            Executable::Process { script, params, env } => {
                match plan_process(script, params, env, args, subject) {
                    Ok(plan) => Ok(Invocation::Process(plan)),
                    Err(e) => Err(e),
                }
            },
        }
    }
}

impl FunctionDeclartion {
    /// Builds the executable function: sandbox-backed when a module is
    /// declared, else process-backed; a declaration with neither is refused.
    pub fn create(&self) -> (r: Result<ExecutableFunction, PluginError>)
        ensures
            r is Err <==> self.wasm is None && self.script is None,
            r is Err ==> r->Err_0 == PluginError::BackendConfigError,
            r is Ok ==> r->Ok_0.name == self.name && executable_for(
                r->Ok_0.executor,
                self.wasm,
                self.script,
                self.params,
                self.env,
            ),
    {
        match select_executable(&self.wasm, &self.script, &self.params, &self.env) {
            Ok(executor) => Ok(ExecutableFunction { executor, name: self.name.clone() }),
            Err(e) => Err(e),
        }
    }
}

impl FilterDeclaration {
    /// Builds the executable filter: sandbox-backed when a module is
    /// declared, else process-backed; a declaration with neither is refused.
    pub fn create(&self) -> (r: Result<ExecutableFilter, PluginError>)
        ensures
            r is Err <==> self.wasm is None && self.script is None,
            r is Err ==> r->Err_0 == PluginError::BackendConfigError,
            r is Ok ==> r->Ok_0.name == self.name && executable_for(
                r->Ok_0.executor,
                self.wasm,
                self.script,
                self.params,
                self.env,
            ),
    {
        match select_executable(&self.wasm, &self.script, &self.params, &self.env) {
            Ok(executor) => Ok(ExecutableFilter { executor, name: self.name.clone() }),
            Err(e) => Err(e),
        }
    }
}

impl ExecutableFunction {
    /// Prepares a call of the function with named arguments.
    pub fn call(&self, args: &Vec<(String, Value)>) -> (r: Result<Invocation, PluginError>)
        ensures
            invocation_for(self.executor, self.name@, args@, None, r),
    {
        self.executor.prepare(&self.name, args, None)
    }
}

impl ExecutableFilter {
    /// Prepares a call of the filter on a subject value, with named arguments.
    pub fn filter(&self, value: &Value, args: &Vec<(String, Value)>) -> (r: Result<Invocation, PluginError>)
        ensures
            invocation_for(self.executor, self.name@, args@, Some(*value), r),
    {
        self.executor.prepare(&self.name, args, Some(value))
    }
}

/// Whether a function declaration names a backend.
pub open spec fn function_has_backend(d: FunctionDeclartion) -> bool {
    d.wasm is Some || d.script is Some
}

/// Whether a filter declaration names a backend.
pub open spec fn filter_has_backend(d: FilterDeclaration) -> bool {
    d.wasm is Some || d.script is Some
}

/// The declared functions, none when the list is absent.
pub open spec fn declared_functions(p: Plugin) -> Seq<FunctionDeclartion> {
    match p.functions {
        Some(v) => v@,
        None => seq![],
    }
}

/// The declared filters, none when the list is absent.
pub open spec fn declared_filters(p: Plugin) -> Seq<FilterDeclaration> {
    match p.filters {
        Some(v) => v@,
        None => seq![],
    }
}

impl Plugin {
    /// Builds every declared function and filter, in order. The first
    /// declaration without a backend (functions first) stops the build and
    /// is reported by name.
    pub fn executables(&self) -> (r: Result<(Vec<ExecutableFunction>, Vec<ExecutableFilter>), (String, PluginError)>)
        ensures
            r is Ok <==> (forall|i: int| 0 <= i < declared_functions(*self).len()
                ==> function_has_backend(#[trigger] declared_functions(*self)[i])) && (forall|i: int|
                0 <= i < declared_filters(*self).len() ==> filter_has_backend(
                    #[trigger] declared_filters(*self)[i],
                )),
            r is Ok ==> ({
                let (fs, gs) = r->Ok_0;
                &&& fs@.len() == declared_functions(*self).len()
                &&& gs@.len() == declared_filters(*self).len()
                &&& forall|i: int| 0 <= i < fs@.len() ==> {
                    let d = #[trigger] declared_functions(*self)[i];
                    fs@[i].name == d.name && executable_for(fs@[i].executor, d.wasm, d.script, d.params, d.env)
                }
                &&& forall|i: int| 0 <= i < gs@.len() ==> {
                    let d = #[trigger] declared_filters(*self)[i];
                    gs@[i].name == d.name && executable_for(gs@[i].executor, d.wasm, d.script, d.params, d.env)
                }
            }),
            r is Err ==> r->Err_0.1 == PluginError::BackendConfigError && ((exists|i: int|
                0 <= i < declared_functions(*self).len() && !function_has_backend(
                    declared_functions(*self)[i],
                ) && r->Err_0.0 == declared_functions(*self)[i].name) || (exists|i: int|
                0 <= i < declared_filters(*self).len() && !filter_has_backend(declared_filters(*self)[i])
                    && r->Err_0.0 == declared_filters(*self)[i].name)),
    {
        let mut fs: Vec<ExecutableFunction> = Vec::new();
        match &self.functions {
            Some(decls) => {
                let mut i: usize = 0;
                while i < decls.len()
                    invariant
                        i <= decls@.len(),
                        declared_functions(*self) == decls@,
                        fs@.len() == i,
                        forall|k: int| 0 <= k < i ==> function_has_backend(#[trigger] decls@[k]),
                        forall|k: int| 0 <= k < i ==> {
                            let d = #[trigger] decls@[k];
                            fs@[k].name == d.name && executable_for(fs@[k].executor, d.wasm, d.script, d.params, d.env)
                        },
                    decreases decls.len() - i,
                {
                    match decls[i].create() {
                        Ok(f) => fs.push(f),
                        Err(e) => {
                            return Err((decls[i].name.clone(), e));
                        },
                    }
                    i = i + 1;
                }
            },
            None => {},
        }
        let mut gs: Vec<ExecutableFilter> = Vec::new();
        match &self.filters {
            Some(decls) => {
                let mut i: usize = 0;
                while i < decls.len()
                    invariant
                        i <= decls@.len(),
                        declared_filters(*self) == decls@,
                        gs@.len() == i,
                        forall|k: int| 0 <= k < i ==> filter_has_backend(#[trigger] decls@[k]),
                        forall|k: int| 0 <= k < i ==> {
                            let d = #[trigger] decls@[k];
                            gs@[k].name == d.name && executable_for(gs@[k].executor, d.wasm, d.script, d.params, d.env)
                        },
                    decreases decls.len() - i,
                {
                    match decls[i].create() {
                        Ok(g) => gs.push(g),
                        Err(e) => {
                            return Err((decls[i].name.clone(), e));
                        },
                    }
                    i = i + 1;
                }
            },
            None => {},
        }
        Ok((fs, gs))
    }
}

} // verus!
