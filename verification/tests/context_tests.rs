use nexus_wasm_bridge::capability::CapabilityToken;
use nexus_wasm_bridge::context::AsyncResult;
use nexus_wasm_bridge::context::ExecutionContext;
use nexus_wasm_bridge::context::ExecutionStatus;
use nexus_wasm_bridge::context::ExtensionRegistry;
use nexus_wasm_bridge::context::LogLevel;
use nexus_wasm_bridge::context::MutationOperation;
use nexus_wasm_bridge::context::StateMutation;
use nexus_wasm_bridge::context::ViewCommandType;
use nexus_wasm_bridge::context::WasmContext;
use nexus_wasm_bridge::context::WasmResult;
use nexus_wasm_bridge::error::HOST_NOT_FOUND;
use nexus_wasm_bridge::error::HOST_PERMISSION_DENIED;
use nexus_wasm_bridge::host;
use nexus_wasm_bridge::metrics::ExecutionMetrics;
use nexus_wasm_bridge::value::RuntimeValue;
use nexus_wasm_bridge::value::ValueMap;

fn context_with_caps(caps: Vec<CapabilityToken>) -> ExecutionContext {
    let mut state = ValueMap::new();
    state.push("count".to_string(), RuntimeValue::Number(42.0f64.to_bits()));
    state.push("name".to_string(), RuntimeValue::String("test".to_string()));
    let wasm_ctx = WasmContext::new("test-panel".to_string(), "test-handler".to_string())
        .with_state(state)
        .with_capabilities(caps);
    ExecutionContext::from_wasm_context(wasm_ctx)
}

fn context_with_extensions() -> ExecutionContext {
    let mut registry = ExtensionRegistry::new();
    registry.register("http".to_string(), vec!["get".to_string(), "post".to_string()]);
    registry.register(
        "storage".to_string(),
        vec!["read".to_string(), "write".to_string()],
    );
    let wasm_ctx = WasmContext::new("test-panel".to_string(), "test-handler".to_string())
        .with_extensions(registry)
        .with_capabilities(vec![CapabilityToken::ExtensionAll]);
    ExecutionContext::from_wasm_context(wasm_ctx)
}

#[test]
fn test_wasm_context_builder() {
    let ctx = WasmContext::new("panel-1".to_string(), "increment".to_string())
        .with_capabilities(vec![CapabilityToken::StateReadAll]);

    assert_eq!(ctx.panel_id, "panel-1");
    assert_eq!(ctx.handler_name, "increment");
    assert!(!ctx.capabilities.is_empty());
}

#[test]
fn test_wasm_result_success() {
    let result = WasmResult::success(
        Some(RuntimeValue::Number(42.0f64.to_bits())),
        ExecutionMetrics::default(),
    );
    assert_eq!(result.status, ExecutionStatus::Success);
    assert!(result.error.is_none());
}

#[test]
fn test_state_mutation() {
    let mutation = StateMutation::set("count".to_string(), RuntimeValue::Number(5.0f64.to_bits()));
    assert_eq!(mutation.key, "count");
    assert_eq!(mutation.operation, MutationOperation::Assign);
}

#[test]
fn test_async_result() {
    let success = AsyncResult::success(RuntimeValue::String("ok".to_string()));
    assert!(success.success);
    assert!(success.error.is_none());

    let error = AsyncResult::error("failed".to_string());
    assert!(!error.success);
    assert_eq!(error.error, Some("failed".to_string()));
}

#[test]
fn test_state_get_with_permission() {
    let ctx = context_with_caps(vec![CapabilityToken::StateReadAll]);

    let result = host::state_get(&ctx, "count");
    assert!(result.is_ok());
    assert_eq!(
        result.unwrap(),
        Some(RuntimeValue::Number(42.0f64.to_bits()))
    );
}

#[test]
fn test_state_get_without_permission() {
    let ctx = context_with_caps(vec![]);

    let result = host::state_get(&ctx, "count");
    assert_eq!(result, Err(HOST_PERMISSION_DENIED));
}

#[test]
fn test_state_get_specific_permission() {
    let ctx = context_with_caps(vec![CapabilityToken::StateRead("count".to_string())]);

    assert!(host::state_get(&ctx, "count").is_ok());
    assert_eq!(host::state_get(&ctx, "name"), Err(HOST_PERMISSION_DENIED));
}

#[test]
fn test_state_set_with_permission() {
    let mut ctx = context_with_caps(vec![CapabilityToken::StateWriteAll]);

    let result = host::state_set(&mut ctx, "count", RuntimeValue::Number(100.0f64.to_bits()));
    assert!(result.is_ok());

    assert_eq!(ctx.state_mutations.len(), 1);
    assert_eq!(ctx.state_mutations[0].key, "count");
}

#[test]
fn test_state_set_without_permission() {
    let mut ctx = context_with_caps(vec![CapabilityToken::StateReadAll]);

    let result = host::state_set(&mut ctx, "count", RuntimeValue::Number(100.0f64.to_bits()));
    assert_eq!(result, Err(HOST_PERMISSION_DENIED));
    assert_eq!(ctx.state_mutations.len(), 0);
}

#[test]
fn test_state_delete() {
    let mut ctx = context_with_caps(vec![CapabilityToken::StateWriteAll]);

    let result = host::state_delete(&mut ctx, "count");
    assert!(result.is_ok());

    assert_eq!(ctx.state_mutations.len(), 1);
    assert_eq!(ctx.state_mutations[0].operation, MutationOperation::Delete);
}

#[test]
fn test_state_has() {
    let ctx = context_with_caps(vec![CapabilityToken::StateReadAll]);

    assert_eq!(host::state_has(&ctx, "count"), Ok(true));
    assert_eq!(host::state_has(&ctx, "nonexistent"), Ok(false));
}

#[test]
fn test_state_keys() {
    let ctx = context_with_caps(vec![CapabilityToken::StateReadAll]);

    let keys = host::state_keys(&ctx).unwrap();
    assert!(keys.contains(&"count".to_string()));
    assert!(keys.contains(&"name".to_string()));
}

#[test]
fn test_state_keys_without_permission() {
    let ctx = context_with_caps(vec![CapabilityToken::StateRead("count".to_string())]);

    assert_eq!(host::state_keys(&ctx), Err(HOST_PERMISSION_DENIED));
}

#[test]
fn test_emit_event_with_permission() {
    let mut ctx = context_with_caps(vec![CapabilityToken::EventsEmitAll]);

    let result = host::emit_event(
        &mut ctx,
        "custom_event",
        RuntimeValue::String("test payload".to_string()),
    );
    assert!(result.is_ok());

    assert_eq!(ctx.events.len(), 1);
    assert_eq!(ctx.events[0].name, "custom_event");
}

#[test]
fn test_emit_event_without_permission() {
    let mut ctx = context_with_caps(vec![]);

    let result = host::emit_event(&mut ctx, "custom_event", RuntimeValue::Null);
    assert_eq!(result, Err(HOST_PERMISSION_DENIED));
}

#[test]
fn test_emit_event_specific_permission() {
    let mut ctx = context_with_caps(vec![CapabilityToken::EventsEmit("toast".to_string())]);

    assert!(host::emit_event(&mut ctx, "toast", RuntimeValue::Null).is_ok());
    assert_eq!(
        host::emit_event(&mut ctx, "other", RuntimeValue::Null),
        Err(HOST_PERMISSION_DENIED)
    );
}

#[test]
fn test_emit_toast() {
    let mut ctx = context_with_caps(vec![CapabilityToken::EventsEmit("toast".to_string())]);

    let result = host::emit_toast(&mut ctx, "Hello World", Some("success"));
    assert!(result.is_ok());

    assert_eq!(ctx.events.len(), 1);
    assert_eq!(ctx.events[0].name, "toast");

    if let RuntimeValue::Object(payload) = &ctx.events[0].payload {
        assert_eq!(
            payload.get("message"),
            Some(&RuntimeValue::String("Hello World".to_string()))
        );
        assert_eq!(
            payload.get("type"),
            Some(&RuntimeValue::String("success".to_string()))
        );
    } else {
        panic!("Expected object payload");
    }
}

#[test]
fn test_emit_multiple_events() {
    let mut ctx = context_with_caps(vec![CapabilityToken::EventsEmitAll]);

    host::emit_event(&mut ctx, "event1", RuntimeValue::Number(1.0f64.to_bits())).unwrap();
    host::emit_event(&mut ctx, "event2", RuntimeValue::Number(2.0f64.to_bits())).unwrap();
    host::emit_event(&mut ctx, "event3", RuntimeValue::Number(3.0f64.to_bits())).unwrap();

    assert_eq!(ctx.events.len(), 3);
}

#[test]
fn test_view_set_filter_with_permission() {
    let mut ctx = context_with_caps(vec![CapabilityToken::ViewUpdateAll]);

    let result =
        host::view_set_filter(&mut ctx, "logs", RuntimeValue::String("error".to_string()));
    assert!(result.is_ok());

    assert_eq!(ctx.view_commands.len(), 1);
    assert_eq!(ctx.view_commands[0].command_type, ViewCommandType::SetFilter);
    assert_eq!(ctx.view_commands[0].component_id, Some("logs".to_string()));
}

#[test]
fn test_view_set_filter_without_permission() {
    let mut ctx = context_with_caps(vec![]);

    let result =
        host::view_set_filter(&mut ctx, "logs", RuntimeValue::String("error".to_string()));
    assert_eq!(result, Err(HOST_PERMISSION_DENIED));
}

#[test]
fn test_view_set_filter_specific_permission() {
    let mut ctx = context_with_caps(vec![CapabilityToken::ViewUpdate("logs".to_string())]);

    assert!(host::view_set_filter(&mut ctx, "logs", RuntimeValue::Null).is_ok());
    assert_eq!(
        host::view_set_filter(&mut ctx, "other", RuntimeValue::Null),
        Err(HOST_PERMISSION_DENIED)
    );
}

#[test]
fn test_view_scroll_to() {
    let mut ctx = context_with_caps(vec![CapabilityToken::ViewUpdateAll]);

    let result =
        host::view_scroll_to(&mut ctx, "list", RuntimeValue::String("bottom".to_string()));
    assert!(result.is_ok());

    assert_eq!(ctx.view_commands[0].command_type, ViewCommandType::ScrollTo);
}

#[test]
fn test_view_focus() {
    let mut ctx = context_with_caps(vec![CapabilityToken::ViewUpdateAll]);

    let result = host::view_focus(&mut ctx, "input");
    assert!(result.is_ok());

    assert_eq!(ctx.view_commands[0].command_type, ViewCommandType::Focus);
    assert_eq!(ctx.view_commands[0].component_id, Some("input".to_string()));
}

#[test]
fn test_view_custom() {
    let mut ctx = context_with_caps(vec![CapabilityToken::ViewUpdateAll]);

    let mut args = ValueMap::new();
    args.push("action".to_string(), RuntimeValue::String("refresh".to_string()));

    let result = host::view_custom(&mut ctx, Some("chart"), args);
    assert!(result.is_ok());

    assert_eq!(ctx.view_commands[0].command_type, ViewCommandType::Custom);
}

#[test]
fn test_multiple_view_commands() {
    let mut ctx = context_with_caps(vec![CapabilityToken::ViewUpdateAll]);

    host::view_focus(&mut ctx, "input1").unwrap();
    host::view_scroll_to(&mut ctx, "list", RuntimeValue::Number(0.0f64.to_bits())).unwrap();
    host::view_set_filter(&mut ctx, "logs", RuntimeValue::Null).unwrap();

    assert_eq!(ctx.view_commands.len(), 3);
}

#[test]
fn test_ext_suspend() {
    let mut ctx = context_with_extensions();

    let result = host::ext_suspend(
        &mut ctx,
        "http",
        "get",
        vec![RuntimeValue::String("https://api.example.com".to_string())],
    );

    assert!(result.is_ok());
    let details = result.unwrap();
    assert_eq!(details.extension_name, "http");
    assert_eq!(details.method, "get");
    assert!(!details.suspension_id.is_empty());
    assert_eq!(details.suspension_id.len(), 36);
}

#[test]
fn test_ext_suspend_unknown_extension() {
    let mut ctx = context_with_extensions();

    let result = host::ext_suspend(&mut ctx, "unknown", "method", vec![]);
    assert!(matches!(result, Err(code) if code == HOST_NOT_FOUND));
}

#[test]
fn test_ext_suspend_unknown_method() {
    let mut ctx = context_with_extensions();

    let result = host::ext_suspend(&mut ctx, "http", "delete", vec![]);
    assert!(matches!(result, Err(code) if code == HOST_NOT_FOUND));
}

#[test]
fn test_ext_suspend_without_permission() {
    let mut registry = ExtensionRegistry::new();
    registry.register("http".to_string(), vec!["get".to_string()]);
    let wasm_ctx = WasmContext::new("test-panel".to_string(), "test-handler".to_string())
        .with_extensions(registry)
        .with_capabilities(vec![]);
    let mut ctx = ExecutionContext::from_wasm_context(wasm_ctx);

    let result = host::ext_suspend(&mut ctx, "http", "get", vec![]);
    assert!(matches!(result, Err(code) if code == HOST_PERMISSION_DENIED));
}

#[test]
fn test_ext_exists() {
    let ctx = context_with_extensions();

    assert_eq!(host::ext_exists(&ctx, "http"), Ok(true));
    assert_eq!(host::ext_exists(&ctx, "unknown"), Ok(false));
}

#[test]
fn test_ext_methods() {
    let ctx = context_with_extensions();

    let methods = host::ext_methods(&ctx, "http").unwrap();
    assert!(methods.contains(&"get".to_string()));
    assert!(methods.contains(&"post".to_string()));
}

#[test]
fn test_ext_methods_unknown_extension() {
    let ctx = context_with_extensions();

    let result = host::ext_methods(&ctx, "unknown");
    assert!(matches!(result, Err(code) if code == HOST_NOT_FOUND));
}

#[test]
fn test_ext_list() {
    let ctx = context_with_extensions();

    let extensions = host::ext_list(&ctx).unwrap();
    assert!(extensions.contains(&"http".to_string()));
    assert!(extensions.contains(&"storage".to_string()));
}

#[test]
fn test_suspension_state_recorded() {
    let mut ctx = context_with_extensions();

    host::ext_suspend(
        &mut ctx,
        "http",
        "get",
        vec![RuntimeValue::String("url".to_string())],
    )
    .unwrap();

    assert!(ctx.suspension.is_some());
    let suspension = ctx.suspension.as_ref().unwrap();
    assert_eq!(suspension.extension_name, "http");
    assert_eq!(suspension.method, "get");
}

#[test]
fn test_log() {
    let mut ctx = context_with_caps(vec![]);

    let result = host::log(&mut ctx, 1, "Test message");
    assert!(result.is_ok());

    assert_eq!(ctx.log_messages.len(), 1);
    assert_eq!(ctx.log_messages[0].message, "Test message");
    assert_eq!(ctx.log_messages[0].level, LogLevel::Info);
}

#[test]
fn test_log_levels() {
    let mut ctx = context_with_caps(vec![]);

    host::log_debug(&mut ctx, "debug").unwrap();
    host::log_info(&mut ctx, "info").unwrap();
    host::log_warn(&mut ctx, "warn").unwrap();
    host::log_error(&mut ctx, "error").unwrap();

    assert_eq!(ctx.log_messages.len(), 4);
    assert_eq!(ctx.log_messages[0].level, LogLevel::Debug);
    assert_eq!(ctx.log_messages[1].level, LogLevel::Info);
    assert_eq!(ctx.log_messages[2].level, LogLevel::Warn);
    assert_eq!(ctx.log_messages[3].level, LogLevel::Error);
}

#[test]
fn test_log_no_capabilities_required() {
    let wasm_ctx = WasmContext::new("test-panel".to_string(), "test-handler".to_string());
    let mut ctx = ExecutionContext::from_wasm_context(wasm_ctx);

    assert!(host::log(&mut ctx, 1, "Should work").is_ok());
}

#[test]
fn test_now() {
    let timestamp = host::now().unwrap();

    assert!(timestamp > 1577836800000);
}

#[test]
fn test_multiple_logs() {
    let mut ctx = context_with_caps(vec![]);

    for i in 0..100 {
        host::log(&mut ctx, 1, &format!("Message {}", i)).unwrap();
    }

    assert_eq!(ctx.log_messages.len(), 100);
}

#[test]
fn test_host_functions_creation() {
    let mut ctx = context_with_caps(vec![]);
    let budget = host::HostFunctions::new(100);
    assert!(budget.check_host_call_limit(&mut ctx).is_ok());
}

#[test]
fn test_host_call_limit() {
    let mut ctx = context_with_caps(vec![]);
    let budget = host::HostFunctions::new(2);

    assert!(budget.check_host_call_limit(&mut ctx).is_ok());
    assert!(budget.check_host_call_limit(&mut ctx).is_ok());
    assert!(budget.check_host_call_limit(&mut ctx).is_err());
    assert_eq!(ctx.host_call_count, 2);
}
