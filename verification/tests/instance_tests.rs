use nexus_wasm_bridge::capability::CapabilityToken;
use nexus_wasm_bridge::compiler::HandlerCompiler;
use nexus_wasm_bridge::config::RuntimeConfig;
use nexus_wasm_bridge::context::ExecutionStatus;
use nexus_wasm_bridge::context::ExtensionRegistry;
use nexus_wasm_bridge::context::MutationOperation;
use nexus_wasm_bridge::context::WasmContext;
use nexus_wasm_bridge::error::ErrorCode;
use nexus_wasm_bridge::instance::GuestOutcome;
use nexus_wasm_bridge::instance::GuestScript;
use nexus_wasm_bridge::instance::HostOp;
use nexus_wasm_bridge::instance::InstanceState;
use nexus_wasm_bridge::instance::WasmInstance;
use nexus_wasm_bridge::value::RuntimeValue;

fn compiled(source: &str) -> nexus_wasm_bridge::compiler::CompiledHandler {
    let mut compiler = HandlerCompiler::new(&RuntimeConfig::default()).unwrap();
    compiler.compile(source, None).unwrap()
}

#[test]
fn test_instance_creation() {
    let config = RuntimeConfig::default();
    let instance = WasmInstance::new(&config).unwrap();

    assert_eq!(instance.state(), InstanceState::Idle);
    assert!(!instance.id().is_empty());
}

#[test]
fn test_instance_reset() {
    let config = RuntimeConfig::default();
    let mut instance = WasmInstance::new(&config).unwrap();

    instance.reset().unwrap();
    assert_eq!(instance.state(), InstanceState::Idle);
}

#[test]
fn test_instance_terminate() {
    let config = RuntimeConfig::default();
    let mut instance = WasmInstance::new(&config).unwrap();

    instance.terminate();
    assert_eq!(instance.state(), InstanceState::Terminated);
}

#[test]
fn test_cannot_reset_terminated() {
    let config = RuntimeConfig::default();
    let mut instance = WasmInstance::new(&config).unwrap();

    instance.terminate();
    assert!(instance.reset().is_err());
}

#[test]
fn test_instance_ids_are_unique() {
    let config = RuntimeConfig::default();
    let a = WasmInstance::new(&config).unwrap();
    let b = WasmInstance::new(&config).unwrap();
    assert_ne!(a.id(), b.id());
    assert_eq!(a.id().len(), 36);
}

#[test]
fn test_execute_success_with_mutation() {
    let config = RuntimeConfig::default();
    let mut instance = WasmInstance::new(&config).unwrap();
    let artifact = compiled("$state.set('count', ($state.get('count') ?? 0) + 1);");
    let ctx = WasmContext::new("panel-1".to_string(), "increment".to_string())
        .with_capabilities(vec![
            CapabilityToken::StateReadAll,
            CapabilityToken::StateWriteAll,
        ]);
    let script = GuestScript {
        ops: vec![
            HostOp::StateGet("count".to_string()),
            HostOp::StateSet("count".to_string(), RuntimeValue::Number(1.0f64.to_bits())),
        ],
        outcome: GuestOutcome::Complete(None),
    };

    let result = instance.execute(&artifact, ctx, 5000, &script).unwrap();
    assert_eq!(result.status, ExecutionStatus::Success);
    assert_eq!(result.state_mutations.len(), 1);
    assert_eq!(result.state_mutations[0].key, "count");
    assert_eq!(
        result.state_mutations[0].value,
        RuntimeValue::Number(1.0f64.to_bits())
    );
    assert_eq!(result.state_mutations[0].operation, MutationOperation::Assign);
    assert!(result.events.is_empty());
    assert!(result.view_commands.is_empty());
    assert_eq!(instance.state(), InstanceState::Idle);
}

#[test]
fn test_execute_permission_denied_records_nothing() {
    let config = RuntimeConfig::default();
    let mut instance = WasmInstance::new(&config).unwrap();
    let artifact = compiled("$state.set('count', ($state.get('count') ?? 0) + 1);");
    let ctx = WasmContext::new("panel-1".to_string(), "increment".to_string())
        .with_capabilities(vec![CapabilityToken::StateReadAll]);
    let script = GuestScript {
        ops: vec![
            HostOp::StateGet("count".to_string()),
            HostOp::StateSet("count".to_string(), RuntimeValue::Number(1.0f64.to_bits())),
        ],
        outcome: GuestOutcome::Complete(None),
    };

    let result = instance.execute(&artifact, ctx, 5000, &script).unwrap();
    assert_eq!(result.status, ExecutionStatus::Error);
    let err = result.error.unwrap();
    assert_eq!(err.code, ErrorCode::PermissionDenied);
    assert!(err.message.contains("state:write:count"));
    assert!(result.state_mutations.is_empty());
}

#[test]
fn test_execute_requires_idle() {
    let config = RuntimeConfig::default();
    let mut instance = WasmInstance::new(&config).unwrap();
    instance.terminate();
    let artifact = compiled("1;");
    let ctx = WasmContext::new("p".to_string(), "h".to_string());
    let script = GuestScript::completing(None);
    assert!(instance.execute(&artifact, ctx, 5000, &script).is_err());
}

#[test]
fn test_immediate_suspension_has_no_effects() {
    let config = RuntimeConfig::default();
    let mut instance = WasmInstance::new(&config).unwrap();
    let artifact = compiled("const r = await $ext.http.get('u');");
    let mut registry = ExtensionRegistry::new();
    registry.register("http".to_string(), vec!["get".to_string()]);
    let ctx = WasmContext::new("panel-1".to_string(), "fetch".to_string())
        .with_capabilities(vec![CapabilityToken::Extension("http".to_string())])
        .with_extensions(registry);
    let script = GuestScript {
        ops: vec![HostOp::ExtCall(
            "http".to_string(),
            "get".to_string(),
            vec![RuntimeValue::String("u".to_string())],
        )],
        outcome: GuestOutcome::Complete(None),
    };

    let result = instance.execute(&artifact, ctx, 5000, &script).unwrap();
    assert_eq!(result.status, ExecutionStatus::Suspended);
    assert!(result.state_mutations.is_empty());
    assert!(result.events.is_empty());
    assert!(result.view_commands.is_empty());
    let suspension = result.suspension.unwrap();
    assert_eq!(suspension.extension_name, "http");
    assert_eq!(suspension.method, "get");
    assert_eq!(
        suspension.args,
        vec![RuntimeValue::String("u".to_string())]
    );
    assert_eq!(instance.state(), InstanceState::Suspended);
    assert_eq!(instance.suspension_id(), Some(suspension.suspension_id.as_str()));
}

#[test]
fn test_resume_continues_with_effects() {
    let config = RuntimeConfig::default();
    let mut instance = WasmInstance::new(&config).unwrap();
    let artifact = compiled("const r = await $ext.http.get('u'); $state.set('body', r);");
    let mut registry = ExtensionRegistry::new();
    registry.register("http".to_string(), vec!["get".to_string()]);
    let ctx = WasmContext::new("panel-1".to_string(), "fetch".to_string())
        .with_capabilities(vec![
            CapabilityToken::Extension("http".to_string()),
            CapabilityToken::StateWrite("body".to_string()),
        ])
        .with_extensions(registry);
    let suspend_script = GuestScript {
        ops: vec![HostOp::ExtCall(
            "http".to_string(),
            "get".to_string(),
            vec![RuntimeValue::String("u".to_string())],
        )],
        outcome: GuestOutcome::Complete(None),
    };
    let result = instance.execute(&artifact, ctx, 5000, &suspend_script).unwrap();
    assert_eq!(result.status, ExecutionStatus::Suspended);

    let resume_script = GuestScript {
        ops: vec![HostOp::StateSet(
            "body".to_string(),
            RuntimeValue::String("OK".to_string()),
        )],
        outcome: GuestOutcome::Complete(None),
    };
    let async_result = nexus_wasm_bridge::context::AsyncResult::success(
        RuntimeValue::String("OK".to_string()),
    );
    let resumed = instance.resume(async_result, &resume_script).unwrap();
    assert_eq!(resumed.status, ExecutionStatus::Success);
    assert_eq!(resumed.state_mutations.len(), 1);
    assert_eq!(resumed.state_mutations[0].key, "body");
    assert_eq!(
        resumed.state_mutations[0].value,
        RuntimeValue::String("OK".to_string())
    );
    assert_eq!(instance.state(), InstanceState::Idle);
}

#[test]
fn test_resume_requires_suspended() {
    let config = RuntimeConfig::default();
    let mut instance = WasmInstance::new(&config).unwrap();
    let script = GuestScript::completing(None);
    let async_result =
        nexus_wasm_bridge::context::AsyncResult::success(RuntimeValue::Null);
    assert!(instance.resume(async_result, &script).is_err());
}

#[test]
fn test_host_call_budget_returns_resource_limit() {
    let config = RuntimeConfig { max_host_calls: 2, ..RuntimeConfig::default() };
    let mut instance = WasmInstance::new(&config).unwrap();
    let artifact = compiled("$log.info('x');");
    let ctx = WasmContext::new("panel-1".to_string(), "spam".to_string());
    let script = GuestScript {
        ops: vec![
            HostOp::Log(1, "a".to_string()),
            HostOp::Log(1, "b".to_string()),
            HostOp::Log(1, "c".to_string()),
        ],
        outcome: GuestOutcome::Complete(None),
    };

    let result = instance.execute(&artifact, ctx, 5000, &script).unwrap();
    assert_eq!(result.status, ExecutionStatus::Error);
    let err = result.error.unwrap();
    assert_eq!(err.code, ErrorCode::ResourceLimit);
    assert!(err.message.contains("host_calls"));
    assert!(err.message.contains("(used: 2, limit: 2)"));
}

#[test]
fn test_timed_out_run_keeps_partial_effects() {
    let config = RuntimeConfig::default();
    let mut instance = WasmInstance::new(&config).unwrap();
    let artifact = compiled("while (true) {}");
    let ctx = WasmContext::new("panel-1".to_string(), "spin".to_string())
        .with_capabilities(vec![CapabilityToken::EventsEmitAll]);
    let script = GuestScript {
        ops: vec![HostOp::EmitEvent("started".to_string(), RuntimeValue::Null)],
        outcome: GuestOutcome::TimedOut,
    };

    let result = instance.execute(&artifact, ctx, 50, &script).unwrap();
    assert_eq!(result.status, ExecutionStatus::Error);
    let err = result.error.unwrap();
    assert_eq!(err.code, ErrorCode::Timeout);
    assert!(err.message.contains("50"));
    assert_eq!(result.events.len(), 1);
    assert_eq!(instance.state(), InstanceState::Executing);
}

#[test]
fn test_unknown_extension_fails_not_found() {
    let config = RuntimeConfig::default();
    let mut instance = WasmInstance::new(&config).unwrap();
    let artifact = compiled("await $ext.nope.get('u');");
    let ctx = WasmContext::new("panel-1".to_string(), "fetch".to_string())
        .with_capabilities(vec![CapabilityToken::ExtensionAll]);
    let script = GuestScript {
        ops: vec![HostOp::ExtCall("nope".to_string(), "get".to_string(), vec![])],
        outcome: GuestOutcome::Complete(None),
    };
    let result = instance.execute(&artifact, ctx, 5000, &script).unwrap();
    let err = result.error.unwrap();
    assert_eq!(err.code, ErrorCode::ExtensionNotFound);
}

#[test]
fn test_unknown_method_fails_not_found() {
    let config = RuntimeConfig::default();
    let mut instance = WasmInstance::new(&config).unwrap();
    let artifact = compiled("await $ext.http.del('u');");
    let mut registry = ExtensionRegistry::new();
    registry.register("http".to_string(), vec!["get".to_string()]);
    let ctx = WasmContext::new("panel-1".to_string(), "fetch".to_string())
        .with_capabilities(vec![CapabilityToken::ExtensionAll])
        .with_extensions(registry);
    let script = GuestScript {
        ops: vec![HostOp::ExtCall("http".to_string(), "del".to_string(), vec![])],
        outcome: GuestOutcome::Complete(None),
    };
    let result = instance.execute(&artifact, ctx, 5000, &script).unwrap();
    let err = result.error.unwrap();
    assert_eq!(err.code, ErrorCode::MethodNotFound);
}

#[test]
fn test_resume_concatenates_effects_in_order() {
    let config = RuntimeConfig::default();
    let mut instance = WasmInstance::new(&config).unwrap();
    let artifact = compiled("$emit('started', 1); await $ext.http.get('u'); $emit('done', 2);");
    let mut registry = ExtensionRegistry::new();
    registry.register("http".to_string(), vec!["get".to_string()]);
    let ctx = WasmContext::new("panel-1".to_string(), "fetch".to_string())
        .with_capabilities(vec![
            CapabilityToken::EventsEmitAll,
            CapabilityToken::Extension("http".to_string()),
        ])
        .with_extensions(registry);
    let first = GuestScript {
        ops: vec![
            HostOp::EmitEvent("started".to_string(), RuntimeValue::Number(1.0f64.to_bits())),
            HostOp::ExtCall("http".to_string(), "get".to_string(), vec![]),
        ],
        outcome: GuestOutcome::Complete(None),
    };
    let result = instance.execute(&artifact, ctx, 5000, &first).unwrap();
    assert_eq!(result.status, ExecutionStatus::Suspended);
    assert_eq!(result.events.len(), 1);
    assert_eq!(result.events[0].name, "started");

    let second = GuestScript {
        ops: vec![HostOp::EmitEvent(
            "done".to_string(),
            RuntimeValue::Number(2.0f64.to_bits()),
        )],
        outcome: GuestOutcome::Complete(None),
    };
    let resumed = instance
        .resume(
            nexus_wasm_bridge::context::AsyncResult::success(RuntimeValue::Null),
            &second,
        )
        .unwrap();
    assert_eq!(resumed.status, ExecutionStatus::Success);
    assert_eq!(resumed.events.len(), 2);
    assert_eq!(resumed.events[0].name, "started");
    assert_eq!(resumed.events[1].name, "done");
}

#[test]
fn test_execute_returns_guest_value() {
    let config = RuntimeConfig::default();
    let mut instance = WasmInstance::new(&config).unwrap();
    let artifact = compiled("return 7;");
    let ctx = WasmContext::new("panel-1".to_string(), "calc".to_string());
    let script = GuestScript::completing(Some(RuntimeValue::Number(7.0f64.to_bits())));
    let result = instance.execute(&artifact, ctx, 5000, &script).unwrap();
    assert_eq!(result.status, ExecutionStatus::Success);
    assert_eq!(
        result.return_value,
        Some(RuntimeValue::Number(7.0f64.to_bits()))
    );
}

#[test]
fn test_execute_surfaces_guest_failure() {
    let config = RuntimeConfig::default();
    let mut instance = WasmInstance::new(&config).unwrap();
    let artifact = compiled("throw new TypeError('boom');");
    let ctx = WasmContext::new("panel-1".to_string(), "explode".to_string());
    let script = GuestScript {
        ops: vec![],
        outcome: GuestOutcome::Fail(
            nexus_wasm_bridge::error::WasmError::execution_error("boom".to_string()),
        ),
    };
    let result = instance.execute(&artifact, ctx, 5000, &script).unwrap();
    assert_eq!(result.status, ExecutionStatus::Error);
    let err = result.error.unwrap();
    assert_eq!(err.code, ErrorCode::ExecutionError);
    assert_eq!(err.message, "boom");
    assert_eq!(instance.state(), InstanceState::Idle);
}
