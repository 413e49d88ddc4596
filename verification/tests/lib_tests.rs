use nexus_wasm_bridge::QUICKJS_WRAPPER;
use nexus_wasm_bridge::boundary::JsAsyncResult;
use nexus_wasm_bridge::boundary::JsWasmContext;
use nexus_wasm_bridge::codec::encode_value;
use nexus_wasm_bridge::VERSION;
use nexus_wasm_bridge::boundary::JsWasmResult;
use nexus_wasm_bridge::codec::decode_value;
use nexus_wasm_bridge::context::StateMutation;
use nexus_wasm_bridge::context::ViewCommand;
use nexus_wasm_bridge::context::WasmResult;
use nexus_wasm_bridge::metrics::ExecutionMetrics;
use nexus_wasm_bridge::value::RuntimeValue;
use nexus_wasm_bridge::wire::encode_result;
use nexus_wasm_bridge::wire::result_to_value;

#[test]
fn test_version() {
    assert_eq!(VERSION, "1.0.0");
}

#[test]
fn test_quickjs_wrapper_loaded() {
    assert!(!QUICKJS_WRAPPER.is_empty());
    assert!(QUICKJS_WRAPPER.contains("$state"));
    assert!(QUICKJS_WRAPPER.contains("$emit"));
}

fn sample_result() -> WasmResult {
    let result = WasmResult::success(
        Some(RuntimeValue::Number(42.0f64.to_bits())),
        ExecutionMetrics::new().with_duration(123).with_cache_hit(true),
    );
    let result = result.with_mutations(vec![
        StateMutation::set("count".to_string(), RuntimeValue::Number(1.0f64.to_bits())),
        StateMutation::delete("old".to_string()),
    ]);
    result.with_view_commands(vec![ViewCommand::focus("input".to_string())])
}

#[test]
fn test_result_wire_round_trip() {
    let result = sample_result();
    let bytes = encode_result(&result);
    let decoded = decode_value(&bytes).unwrap();
    assert_eq!(decoded, result_to_value(&result));
}

#[test]
fn test_result_boundary_form() {
    let result = sample_result();
    let js = JsWasmResult::from_wasm_result(&result);
    assert_eq!(js.status, "success");
    assert!(js.error.is_none());
    assert!(js.suspension.is_none());
    assert!(js.metrics.cache_hit);
    assert_eq!(js.metrics.execution_time_us, 123);

    let muts = decode_value(&js.state_mutations).unwrap();
    let arr = muts.as_array().unwrap();
    assert_eq!(arr.len(), 2);
    let first = arr[0].as_array().unwrap();
    assert_eq!(first[0], RuntimeValue::String("count".to_string()));
    assert_eq!(first[1], RuntimeValue::Number(1.0f64.to_bits()));
}

#[test]
fn test_async_result_conversion() {
    let value = RuntimeValue::String("OK".to_string());
    let js = JsAsyncResult {
        success: true,
        value: Some(encode_value(&value)),
        error: None,
    };
    let ar = js.to_async_result().unwrap();
    assert!(ar.success);
    assert_eq!(ar.value, Some(RuntimeValue::String("OK".to_string())));
    assert_eq!(ar.error, None);

    let empty = JsAsyncResult { success: true, value: Some(Vec::new()), error: None };
    assert_eq!(empty.to_async_result().unwrap().value, Some(RuntimeValue::Null));

    let bad = JsAsyncResult { success: false, value: Some(vec![250u8]), error: Some("x".to_string()) };
    assert!(bad.to_async_result().is_err());
}

#[test]
fn test_context_conversion() {
    let mut state = nexus_wasm_bridge::value::ValueMap::new();
    state.push("count".to_string(), RuntimeValue::Number(1.0f64.to_bits()));
    let encoded = encode_value(&RuntimeValue::Object(state));
    let js = JsWasmContext {
        panel_id: "panel-1".to_string(),
        handler_name: "increment".to_string(),
        state: encoded,
        args: Vec::new(),
        scope: Vec::new(),
        capabilities: vec!["state:read:*".to_string(), "not a grant".to_string()],
    };
    let ctx = js.to_wasm_context().unwrap();
    assert_eq!(ctx.panel_id, "panel-1");
    assert_eq!(
        ctx.state_snapshot.get("count"),
        Some(&RuntimeValue::Number(1.0f64.to_bits()))
    );
    assert_eq!(ctx.capabilities.len(), 1);

    let bad = JsWasmContext {
        panel_id: "p".to_string(),
        handler_name: "h".to_string(),
        state: vec![250u8],
        args: Vec::new(),
        scope: Vec::new(),
        capabilities: vec![],
    };
    assert!(bad.to_wasm_context().is_err());
}
