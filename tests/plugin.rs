use jintemplify::binding::{bind_arguments, Param};
use jintemplify::decl::{
    Executable, FilterDeclaration, FunctionDeclartion, Invocation, Plugin, Wasm,
};
use jintemplify::error::PluginError;
use jintemplify::process::{expand_script, finish_process, text_of_value};
use jintemplify::wire::{decode_request, decode_response, encode_failure, encode_request, encode_response};
use serde_json::Value;

fn param(name: &str) -> Param {
    Param { name: name.to_string(), description: None, default: None }
}

fn arg(name: &str, v: Value) -> (String, Value) {
    (name.to_string(), v)
}

fn function(params: Vec<Param>, wasm: Option<Wasm>, script: Option<&str>) -> FunctionDeclartion {
    FunctionDeclartion {
        name: "f".to_string(),
        params: Some(params),
        env: None,
        description: None,
        wasm,
        script: script.map(|s| s.to_string()),
    }
}

fn filter(params: Vec<Param>, wasm: Option<Wasm>, script: Option<&str>) -> FilterDeclaration {
    FilterDeclaration {
        name: "g".to_string(),
        params: Some(params),
        env: None,
        description: None,
        wasm,
        script: script.map(|s| s.to_string()),
    }
}

fn module() -> Wasm {
    Wasm { path: "plugin.wasm".to_string(), entry: None }
}

fn request_of(inv: Result<Invocation, PluginError>) -> (String, String, Vec<u8>) {
    match inv {
        Ok(Invocation::Sandbox { path, entry, request }) => (path, entry, request),
        other => panic!("expected a sandbox call, got {:?}", other),
    }
}

fn script_of(inv: Result<Invocation, PluginError>) -> String {
    match inv {
        Ok(Invocation::Process(plan)) => plan.script,
        other => panic!("expected a process call, got {:?}", other),
    }
}

#[test]
fn test_plugin_function_call() {
    let func_decl = FunctionDeclartion {
        name: "echo_test".to_string(),
        params: Some(vec![Param {
            name: "msg".to_string(),
            description: Some("Echoes a message".to_string()),
            default: None,
        }]),
        description: None,
        env: None,
        wasm: None,
        script: Some("echo $(msg)".to_string()),
    };

    let args = vec![("msg".to_string(), Value::String("Hello, world!".to_string()))];

    let func = func_decl.create().unwrap();
    let script = script_of(func.call(&args));
    assert_eq!(script, "echo Hello, world!");
    // what `sh -c "echo Hello, world!"` writes on its standard output
    let result = finish_process(true, b"Hello, world!\n").unwrap();
    assert_eq!(result, Value::String("Hello, world!\n".to_string()));
}

#[test]
fn filter_without_backend_is_refused() {
    let decl = filter(vec![], None, None);
    assert_eq!(decl.create().err(), Some(PluginError::BackendConfigError));
}

#[test]
fn filter_with_script_or_module_is_created() {
    let by_script = filter(vec![], None, Some("cat")).create().unwrap();
    assert!(matches!(by_script.executor, Executable::Process { .. }));
    let by_module = filter(vec![], Some(module()), None).create().unwrap();
    assert!(matches!(by_module.executor, Executable::Sandbox { .. }));
    let both = filter(vec![], Some(module()), Some("cat")).create().unwrap();
    assert!(matches!(both.executor, Executable::Sandbox { .. }));
    assert_eq!(both.name, "g");
}

#[test]
fn function_without_backend_is_refused() {
    let decl = function(vec![], None, None);
    assert_eq!(decl.create().err(), Some(PluginError::BackendConfigError));
}

#[test]
fn request_follows_declaration_order() {
    let f = function(vec![param("a"), param("b"), param("c")], Some(module()), None).create().unwrap();
    let orders = vec![
        vec![arg("a", Value::from(1)), arg("b", Value::from("x")), arg("c", Value::Bool(true))],
        vec![arg("c", Value::Bool(true)), arg("a", Value::from(1)), arg("b", Value::from("x"))],
        vec![arg("b", Value::from("x")), arg("c", Value::Bool(true)), arg("a", Value::from(1))],
    ];
    for args in orders {
        let (path, entry, request) = request_of(f.call(&args));
        assert_eq!(path, "plugin.wasm");
        assert_eq!(entry, "f");
        assert_eq!(String::from_utf8(request).unwrap(), "{\"params\":[1,\"x\",true]}");
    }
}

#[test]
fn sandbox_entry_can_be_named() {
    let w = Wasm { path: "m.wasm".to_string(), entry: Some("run".to_string()) };
    let f = function(vec![], Some(w), None).create().unwrap();
    let (_, entry, request) = request_of(f.call(&vec![]));
    assert_eq!(entry, "run");
    assert_eq!(request, b"{\"params\":[]}".to_vec());
}

#[test]
fn missing_argument_uses_default_or_fails() {
    let mut b = param("b");
    b.default = Some(Value::from(7));
    let params = vec![param("a"), b, param("c")];
    let args = vec![arg("c", Value::Null), arg("a", Value::from("z"))];
    assert_eq!(
        bind_arguments(&params, &args),
        Ok(vec![Value::from("z"), Value::from(7), Value::Null])
    );
    let short = vec![arg("a", Value::from("z"))];
    assert_eq!(
        bind_arguments(&params, &short),
        Err(PluginError::ParameterBindingError("c".to_string()))
    );
    let none: Vec<(String, Value)> = vec![];
    assert_eq!(
        bind_arguments(&params, &none),
        Err(PluginError::ParameterBindingError("a".to_string()))
    );
}

#[test]
fn unbound_call_is_a_binding_error() {
    let f = function(vec![param("msg")], None, Some("echo $(msg)")).create().unwrap();
    match f.call(&vec![]) {
        Err(PluginError::ParameterBindingError(name)) => assert_eq!(name, "msg"),
        other => panic!("unexpected {:?}", other),
    }
}

#[test]
fn request_round_trip() {
    let values = vec![
        Value::Null,
        Value::from(-3),
        Value::from("quote \" and \\ and \u{e9}"),
        Value::from(vec![Value::from(1), Value::from(2)]),
        serde_json::from_str::<Value>("{\"k\":{\"n\":[true,false]}}").unwrap(),
    ];
    let bytes = encode_request(&values);
    assert_eq!(decode_request(&bytes), Ok(values));
    assert_eq!(decode_request(&encode_request(&vec![])), Ok(vec![]));
}

#[test]
fn non_utf8_request_gives_fixed_reason() {
    let reason = decode_request(&[0x7b, 0xff, 0xfe, 0x7d]).unwrap_err();
    assert_eq!(reason, "Failed to convert byte slice to string");
    let reply = encode_failure(&reason);
    assert_eq!(
        String::from_utf8(reply).unwrap(),
        "{\"reason\":\"Failed to convert byte slice to string\"}"
    );
}

#[test]
fn malformed_request_json_is_reported() {
    let reason = decode_request(b"{\"params\":").unwrap_err();
    assert!(reason.starts_with("Failed to deserialize JSON: "));
    let reason = decode_request(b"{\"other\":[]}").unwrap_err();
    assert!(reason.starts_with("Failed to deserialize JSON: "));
}

#[test]
fn responses_decode_to_results() {
    assert_eq!(decode_response(b"42"), Ok(Value::from(42)));
    assert_eq!(
        decode_response(b"{\"reason\":\"boom\"}"),
        Err(PluginError::SandboxTrapError("boom".to_string()))
    );
    assert_eq!(decode_response(&[0xc3]), Err(PluginError::Utf8DecodingError));
    assert!(matches!(decode_response(b"{"), Err(PluginError::DeserializationError(_))));
    let ok = encode_response(&Ok(Value::from("done")));
    assert_eq!(ok, b"\"done\"".to_vec());
    let failed = encode_response(&Err("bad input".to_string()));
    assert_eq!(
        decode_response(&failed),
        Err(PluginError::SandboxTrapError("bad input".to_string()))
    );
}

#[test]
fn script_placeholders_expand() {
    let b = vec![("x".to_string(), "1".to_string()), ("y".to_string(), "two".to_string())];
    assert_eq!(expand_script("a $(x) b $(y)$(x)", &b), "a 1 b two1");
    assert_eq!(expand_script("$(z) $(x", &b), "$(z) $(x");
    assert_eq!(expand_script("$$(x))", &b), "$1)");
    assert_eq!(expand_script("", &b), "");
}

#[test]
fn value_texts() {
    assert_eq!(text_of_value(&Value::from("plain")), "plain");
    assert_eq!(text_of_value(&Value::from(42)), "42");
    assert_eq!(text_of_value(&Value::Bool(false)), "false");
}

#[test]
fn filter_subject_takes_reserved_slot() {
    let f = filter(vec![param("n")], Some(module()), None).create().unwrap();
    let (_, entry, request) = request_of(f.filter(&Value::from("s"), &vec![arg("n", Value::from(2))]));
    assert_eq!(entry, "g");
    assert_eq!(String::from_utf8(request).unwrap(), "{\"params\":[\"s\",2]}");
    let p = filter(vec![param("n")], None, Some("echo $(value) $(n)")).create().unwrap();
    let script = script_of(p.filter(&Value::from("s"), &vec![arg("n", Value::from(2))]));
    assert_eq!(script, "echo s 2");
}

#[test]
fn process_failure_and_bad_output() {
    assert!(matches!(finish_process(false, b"partial"), Err(PluginError::ProcessError(_))));
    assert_eq!(finish_process(true, &[0xff]), Err(PluginError::Utf8DecodingError));
    assert_eq!(finish_process(true, b""), Ok(Value::from("")));
}

#[test]
fn process_plan_keeps_environment() {
    let mut decl = function(vec![], None, Some("env"));
    decl.env = Some(vec![("K".to_string(), "V".to_string())]);
    let f = decl.create().unwrap();
    match f.call(&vec![]) {
        Ok(Invocation::Process(plan)) => {
            assert_eq!(plan.env, vec![("K".to_string(), "V".to_string())]);
            assert_eq!(plan.script, "env");
        }
        other => panic!("unexpected {:?}", other),
    }
}

#[test]
fn plugin_builds_every_declaration() {
    let plugin = Plugin {
        functions: Some(vec![function(vec![], None, Some("date")), function(vec![], Some(module()), None)]),
        filters: Some(vec![filter(vec![param("n")], None, Some("cat"))]),
    };
    let (fs, gs) = plugin.executables().unwrap();
    assert_eq!(fs.len(), 2);
    assert_eq!(gs.len(), 1);
    assert!(matches!(fs[1].executor, Executable::Sandbox { .. }));

    let mut broken = filter(vec![], None, None);
    broken.name = "broken".to_string();
    let plugin = Plugin { functions: None, filters: Some(vec![broken]) };
    assert_eq!(
        plugin.executables().err(),
        Some(("broken".to_string(), PluginError::BackendConfigError))
    );
    let empty = Plugin { functions: None, filters: None };
    let (fs, gs) = empty.executables().unwrap();
    assert!(fs.is_empty() && gs.is_empty());
}

#[test]
fn filter_without_backend_message() {
    let mut decl = filter(vec![], None, None);
    decl.name = "f".to_string();
    let err = decl.create().err().unwrap();
    assert_eq!(err.message(), "Neither wasm nor script configurations were provided");
}

#[test]
fn reordered_calls_fail_alike() {
    let f = function(vec![param("a"), param("b"), param("c")], Some(module()), None).create().unwrap();
    let one = vec![arg("c", Value::from(3)), arg("a", Value::from(1))];
    let two = vec![arg("a", Value::from(1)), arg("c", Value::from(3))];
    let e1 = f.call(&one).err();
    let e2 = f.call(&two).err();
    assert_eq!(e1, Some(PluginError::ParameterBindingError("b".to_string())));
    assert_eq!(e1, e2);
}
