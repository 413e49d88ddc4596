use nexus_wasm_bridge::capability::CapabilityToken;
use nexus_wasm_bridge::config::RuntimeConfig;
use nexus_wasm_bridge::context::AsyncResult;
use nexus_wasm_bridge::context::ExecutionStatus;
use nexus_wasm_bridge::context::ExtensionRegistry;
use nexus_wasm_bridge::context::WasmContext;
use nexus_wasm_bridge::engine::WasmRuntime;
use nexus_wasm_bridge::error::ErrorCode;
use nexus_wasm_bridge::instance::GuestOutcome;
use nexus_wasm_bridge::instance::GuestScript;
use nexus_wasm_bridge::instance::HostOp;
use nexus_wasm_bridge::value::RuntimeValue;
use nexus_wasm_bridge::value::ValueMap;

fn create_runtime() -> WasmRuntime {
    WasmRuntime::new(RuntimeConfig::default()).unwrap()
}

fn counter_context() -> WasmContext {
    WasmContext::new("panel-1".to_string(), "increment".to_string()).with_capabilities(vec![
        CapabilityToken::StateReadAll,
        CapabilityToken::StateWriteAll,
    ])
}

fn counter_script() -> GuestScript {
    GuestScript {
        ops: vec![
            HostOp::StateGet("count".to_string()),
            HostOp::StateSet("count".to_string(), RuntimeValue::Number(1.0f64.to_bits())),
        ],
        outcome: GuestOutcome::Complete(None),
    }
}

const COUNTER_SOURCE: &str = "$state.set('count', ($state.get('count') ?? 0) + 1);";

#[test]
fn test_runtime_creation() {
    let runtime = create_runtime();
    let stats = runtime.get_stats();
    assert_eq!(stats.total_executions, 0);
}

#[test]
fn test_runtime_rejects_invalid_config() {
    let config = RuntimeConfig::default().with_max_instances(0);
    assert!(WasmRuntime::new(config).is_err());
}

#[test]
fn test_simple_mutation_scenario() {
    let mut runtime = create_runtime();

    let result = runtime
        .execute_handler(COUNTER_SOURCE, counter_context(), 5000, &counter_script(), None)
        .unwrap();
    assert_eq!(result.status, ExecutionStatus::Success);
    assert_eq!(result.state_mutations.len(), 1);
    assert_eq!(result.state_mutations[0].key, "count");
    assert_eq!(
        result.state_mutations[0].value,
        RuntimeValue::Number(1.0f64.to_bits())
    );
    assert!(result.events.is_empty());
    assert!(result.view_commands.is_empty());
    assert!(!result.metrics.cache_hit);

    let repeat = runtime
        .execute_handler(COUNTER_SOURCE, counter_context(), 5000, &counter_script(), None)
        .unwrap();
    assert_eq!(repeat.status, ExecutionStatus::Success);
    assert!(repeat.metrics.cache_hit);
}

#[test]
fn test_capability_violation_scenario() {
    let mut runtime = create_runtime();
    let ctx = WasmContext::new("panel-1".to_string(), "increment".to_string())
        .with_capabilities(vec![CapabilityToken::StateReadAll]);

    let result = runtime
        .execute_handler(COUNTER_SOURCE, ctx, 5000, &counter_script(), None)
        .unwrap();
    assert_eq!(result.status, ExecutionStatus::Error);
    let err = result.error.unwrap();
    assert_eq!(err.code, ErrorCode::PermissionDenied);
    assert!(err.message.contains("state:write:count"));
    assert!(result.state_mutations.is_empty());
}

#[test]
fn test_event_and_view_scenario() {
    let mut runtime = create_runtime();
    let ctx = WasmContext::new("panel-1".to_string(), "notify".to_string()).with_capabilities(
        vec![
            CapabilityToken::EventsEmit("toast".to_string()),
            CapabilityToken::ViewUpdate("input".to_string()),
        ],
    );
    let mut payload = ValueMap::new();
    payload.push("message".to_string(), RuntimeValue::String("hi".to_string()));
    let script = GuestScript {
        ops: vec![
            HostOp::EmitEvent("toast".to_string(), RuntimeValue::Object(payload)),
            HostOp::ViewFocus("input".to_string()),
        ],
        outcome: GuestOutcome::Complete(None),
    };

    let result = runtime
        .execute_handler(
            "$emit('toast', {message:'hi'}); $view.focus('input');",
            ctx,
            5000,
            &script,
            None,
        )
        .unwrap();
    assert_eq!(result.status, ExecutionStatus::Success);
    assert_eq!(result.events.len(), 1);
    assert_eq!(result.events[0].name, "toast");
    let obj = result.events[0].payload.as_object().unwrap();
    assert_eq!(
        obj.get("message"),
        Some(&RuntimeValue::String("hi".to_string()))
    );
    assert_eq!(result.view_commands.len(), 1);
    assert_eq!(
        result.view_commands[0].command_type,
        nexus_wasm_bridge::context::ViewCommandType::Focus
    );
    assert_eq!(
        result.view_commands[0].component_id,
        Some("input".to_string())
    );
}

#[test]
fn test_suspend_resume_scenario() {
    let mut runtime = create_runtime();
    let mut registry = ExtensionRegistry::new();
    registry.register("http".to_string(), vec!["get".to_string()]);
    let ctx = WasmContext::new("panel-1".to_string(), "fetch".to_string())
        .with_capabilities(vec![
            CapabilityToken::Extension("http".to_string()),
            CapabilityToken::StateWrite("body".to_string()),
        ])
        .with_extensions(registry);
    let suspend_script = GuestScript {
        ops: vec![HostOp::ExtCall(
            "http".to_string(),
            "get".to_string(),
            vec![RuntimeValue::String("u".to_string())],
        )],
        outcome: GuestOutcome::Complete(None),
    };

    let result = runtime
        .execute_handler(
            "const r = await $ext.http.get('u'); $state.set('body', r);",
            ctx,
            5000,
            &suspend_script,
            None,
        )
        .unwrap();
    assert_eq!(result.status, ExecutionStatus::Suspended);
    let suspension = result.suspension.unwrap();
    assert_eq!(suspension.extension_name, "http");
    assert_eq!(suspension.method, "get");
    assert_eq!(suspension.args, vec![RuntimeValue::String("u".to_string())]);
    assert!(result.state_mutations.is_empty());

    let resume_script = GuestScript {
        ops: vec![HostOp::StateSet(
            "body".to_string(),
            RuntimeValue::String("OK".to_string()),
        )],
        outcome: GuestOutcome::Complete(None),
    };
    let resumed = runtime
        .resume_handler(
            &suspension.suspension_id,
            AsyncResult::success(RuntimeValue::String("OK".to_string())),
            &resume_script,
        )
        .unwrap();
    assert_eq!(resumed.status, ExecutionStatus::Success);
    assert_eq!(resumed.state_mutations.len(), 1);
    assert_eq!(resumed.state_mutations[0].key, "body");
    assert_eq!(
        resumed.state_mutations[0].value,
        RuntimeValue::String("OK".to_string())
    );
}

#[test]
fn test_resume_unknown_suspension_fails() {
    let mut runtime = create_runtime();
    let script = GuestScript::completing(None);
    let r = runtime.resume_handler(
        "does-not-exist",
        AsyncResult::success(RuntimeValue::Null),
        &script,
    );
    assert!(r.is_err());
}

#[test]
fn test_timeout_scenario() {
    let mut runtime = create_runtime();
    let ctx = WasmContext::new("panel-1".to_string(), "spin".to_string());
    let script = GuestScript { ops: vec![], outcome: GuestOutcome::TimedOut };

    let result = runtime
        .execute_handler("while (true) {}", ctx, 50, &script, None)
        .unwrap();
    assert_eq!(result.status, ExecutionStatus::Error);
    let err = result.error.unwrap();
    assert_eq!(err.code, ErrorCode::Timeout);

    let text = runtime.get_prometheus_metrics();
    assert!(text.contains("nexus_errors_total{code=\"TIMEOUT\"} 1"));
}

#[test]
fn test_precompiled_execution_matches() {
    let mut runtime = create_runtime();

    let bytecode = runtime.precompile_handler(COUNTER_SOURCE, None).unwrap();
    let compiled_result = runtime
        .execute_compiled_handler(bytecode, counter_context(), 5000, &counter_script())
        .unwrap();
    assert!(compiled_result.metrics.cache_hit);
    assert_eq!(compiled_result.status, ExecutionStatus::Success);

    let direct = runtime
        .execute_handler(COUNTER_SOURCE, counter_context(), 5000, &counter_script(), None)
        .unwrap();
    assert_eq!(direct.status, compiled_result.status);
    assert_eq!(direct.state_mutations, compiled_result.state_mutations);
    assert_eq!(direct.events, compiled_result.events);
}

#[test]
fn test_single_instance_serializes_requests() {
    let config = RuntimeConfig::default().with_max_instances(1);
    let mut runtime = WasmRuntime::new(config).unwrap();

    for _ in 0..3 {
        let result = runtime
            .execute_handler(COUNTER_SOURCE, counter_context(), 5000, &counter_script(), None)
            .unwrap();
        assert_eq!(result.status, ExecutionStatus::Success);
    }
    let stats = runtime.get_stats();
    assert_eq!(stats.total_executions, 3);
    assert_eq!(stats.active_instances, 0);
}

#[test]
fn test_shutdown_refuses_executions() {
    let mut runtime = create_runtime();
    runtime.shutdown().unwrap();
    let r = runtime.execute_handler(
        COUNTER_SOURCE,
        counter_context(),
        5000,
        &counter_script(),
        None,
    );
    assert!(r.is_err());
}

#[test]
fn test_stats_track_executions() {
    let mut runtime = create_runtime();
    runtime
        .execute_handler(COUNTER_SOURCE, counter_context(), 5000, &counter_script(), None)
        .unwrap();
    runtime
        .execute_handler(COUNTER_SOURCE, counter_context(), 5000, &counter_script(), None)
        .unwrap();
    let stats = runtime.get_stats();
    assert_eq!(stats.total_executions, 2);
    assert_eq!(stats.cache_hits, 1);
    assert_eq!(stats.cache_misses, 1);
}
