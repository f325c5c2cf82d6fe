use jintemplify::boundary::{locate_descriptor, response_descriptor, response_span};
use jintemplify::error::PluginError;
use jintemplify::guest::{arg_bool, arg_i64, arg_string, arg_value, decimal_text, guest_call};
use jintemplify::variables::{apply_assignments, is_set, split_assignment};
use jintemplify::wire::encode_request;
use serde_json::Value;

fn greet(args: Vec<Value>) -> Result<Value, String> {
    let name = arg_string(&args, 0)?;
    let times = arg_i64(&args, 1)?;
    let loud = arg_bool(&args, 2)?;
    let mut text = String::new();
    for _ in 0..times {
        text.push_str(&name);
    }
    if loud {
        text = text.to_uppercase();
    }
    Ok(Value::from(text))
}

#[test]
fn guest_call_runs_body_on_decoded_values() {
    let req = encode_request(&vec![Value::from("ab"), Value::from(2), Value::Bool(true)]);
    assert_eq!(guest_call(&req, greet), b"\"ABAB\"".to_vec());
}

#[test]
fn guest_call_reports_conversion_failure_by_index_and_type() {
    let req = encode_request(&vec![Value::from("ab"), Value::from("two"), Value::Bool(true)]);
    assert_eq!(
        String::from_utf8(guest_call(&req, greet)).unwrap(),
        "{\"reason\":\"Failed to convert parameter 1 to i64\"}"
    );
    let short = encode_request(&vec![Value::from("ab")]);
    assert_eq!(
        String::from_utf8(guest_call(&short, greet)).unwrap(),
        "{\"reason\":\"Missing parameter at index 1\"}"
    );
}

#[test]
fn guest_call_rejects_non_utf8_before_body() {
    let reply = guest_call(&[0x80, 0x81], |_args: Vec<Value>| -> Result<Value, String> {
        panic!("the body must not run")
    });
    assert_eq!(
        String::from_utf8(reply).unwrap(),
        "{\"reason\":\"Failed to convert byte slice to string\"}"
    );
}

#[test]
fn guest_call_rejects_malformed_json() {
    let reply = guest_call(b"[1,2", |_args: Vec<Value>| -> Result<Value, String> { Ok(Value::Null) });
    let text = String::from_utf8(reply).unwrap();
    assert!(text.starts_with("{\"reason\":\"Failed to deserialize JSON: "));
}

#[test]
fn argument_conversions() {
    let args = vec![Value::from("s"), Value::from(-5), Value::Bool(false), Value::Null];
    assert_eq!(arg_string(&args, 0), Ok("s".to_string()));
    assert_eq!(arg_i64(&args, 1), Ok(-5));
    assert_eq!(arg_bool(&args, 2), Ok(false));
    assert_eq!(arg_value(&args, 3), Ok(Value::Null));
    assert_eq!(arg_string(&args, 1), Err("Failed to convert parameter 1 to string".to_string()));
    assert_eq!(arg_bool(&args, 0), Err("Failed to convert parameter 0 to bool".to_string()));
    assert_eq!(arg_value(&args, 12), Err("Missing parameter at index 12".to_string()));
}

#[test]
fn decimal_texts() {
    assert_eq!(decimal_text(0), "0");
    assert_eq!(decimal_text(7), "7");
    assert_eq!(decimal_text(10), "10");
    assert_eq!(decimal_text(1203), "1203");
    assert_eq!(decimal_text(usize::MAX), usize::MAX.to_string());
}

#[test]
fn assignments_split_at_first_equals() {
    assert_eq!(split_assignment("a=b=c"), Some(("a".to_string(), "b=c".to_string())));
    assert_eq!(split_assignment("=x"), Some(("".to_string(), "x".to_string())));
    assert_eq!(split_assignment("k="), Some(("k".to_string(), "".to_string())));
    assert_eq!(split_assignment("novalue"), None);
}

fn value_of(vars: &Vec<(String, String)>, key: &str) -> Option<String> {
    vars.iter().rev().find(|(k, _)| k == key).map(|(_, v)| v.clone())
}

#[test]
fn overrides_replace_and_defaults_fill() {
    let mut vars = vec![("HOME".to_string(), "/root".to_string())];
    let bad = apply_assignments(
        &mut vars,
        &vec!["HOME=/tmp".to_string(), "broken".to_string(), "A=1".to_string()],
        true,
    );
    assert_eq!(bad, vec!["broken".to_string()]);
    assert_eq!(value_of(&vars, "HOME"), Some("/tmp".to_string()));
    let bad = apply_assignments(
        &mut vars,
        &vec!["A=2".to_string(), "B=3".to_string(), "B=4".to_string()],
        false,
    );
    assert!(bad.is_empty());
    assert_eq!(value_of(&vars, "A"), Some("1".to_string()));
    assert_eq!(value_of(&vars, "B"), Some("3".to_string()));
    assert!(is_set(&vars, &"B".to_string()));
    assert!(!is_set(&vars, &"C".to_string()));
}

#[test]
fn error_messages_keep_their_text() {
    assert_eq!(
        PluginError::SandboxTrapError("boom".to_string()).message(),
        "sandbox call failed: boom"
    );
    assert_eq!(
        PluginError::ParameterBindingError("msg".to_string()).message(),
        "no value for parameter msg"
    );
    assert_eq!(
        PluginError::BackendConfigError.message(),
        "Neither wasm nor script configurations were provided"
    );
}

#[test]
fn descriptors_locate_responses() {
    let d = response_descriptor(0x0102_0304, 17);
    assert_eq!(d, vec![4, 3, 2, 1, 17, 0, 0, 0]);
    assert_eq!(response_span(&d, 0x0102_0304 + 17), Ok((0x0102_0304, 17)));
    assert!(matches!(response_span(&d, 0x0102_0304 + 16), Err(PluginError::SandboxTrapError(_))));
    assert!(matches!(response_span(&d[..7], 1 << 30), Err(PluginError::SandboxTrapError(_))));
    let top = response_descriptor(u32::MAX, u32::MAX);
    assert!(matches!(response_span(&top, u32::MAX as usize), Err(PluginError::SandboxTrapError(_))));
    assert_eq!(locate_descriptor(8, 16), Ok(8));
    assert!(matches!(locate_descriptor(9, 16), Err(PluginError::SandboxTrapError(_))));
    assert!(matches!(locate_descriptor(u32::MAX, 16), Err(PluginError::SandboxTrapError(_))));
}
