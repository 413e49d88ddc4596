use nexus_wasm_bridge::error::ErrorCode;
use nexus_wasm_bridge::error::RuntimeError;
use nexus_wasm_bridge::error::WasmError;

#[test]
fn test_error_code_display() {
    assert_eq!(ErrorCode::Timeout.code_name(), "TIMEOUT");
    assert_eq!(ErrorCode::PermissionDenied.code_name(), "PERMISSION_DENIED");
}

#[test]
fn test_wasm_error_creation() {
    let err = WasmError::timeout(5000);
    assert_eq!(err.code, ErrorCode::Timeout);
    assert!(err.message.contains("5000"));
}

#[test]
fn test_wasm_error_with_location() {
    let err = WasmError::execution_error("test error".to_string()).with_location(10, 5);
    assert!(err.location.is_some());
    let loc = err.location.unwrap();
    assert_eq!(loc.line, 10);
    assert_eq!(loc.column, 5);
}

#[test]
fn test_runtime_error_conversion() {
    let wasm_err = WasmError::timeout(1000);
    let runtime_err = RuntimeError::Wasm(wasm_err);
    let converted = runtime_err.to_wasm_error();
    assert_eq!(converted.code, ErrorCode::Timeout);
}

#[test]
fn test_permission_denied_message() {
    let err = WasmError::permission_denied("state:write:secret", "state_set");
    assert_eq!(err.code, ErrorCode::PermissionDenied);
    assert_eq!(
        err.message,
        "Permission denied: state_set requires capability 'state:write:secret'"
    );
}

#[test]
fn test_memory_limit_message() {
    let err = WasmError::memory_limit(1024, 2048);
    assert_eq!(err.code, ErrorCode::MemoryLimit);
    assert_eq!(
        err.message,
        "Handler exceeded memory limit: 2048 bytes used, 1024 bytes allowed"
    );
}

#[test]
fn test_resource_limit_message() {
    let err = WasmError::resource_limit("host_calls", 100, 100);
    assert_eq!(err.code, ErrorCode::ResourceLimit);
    assert_eq!(
        err.message,
        "Resource limit exceeded: host_calls (used: 100, limit: 100)"
    );
}

#[test]
fn test_extension_not_found_message() {
    let err = WasmError::extension_not_found("http");
    assert_eq!(err.code, ErrorCode::ExtensionNotFound);
    assert_eq!(err.message, "Extension 'http' not found");
}

#[test]
fn test_method_not_found_message() {
    let err = WasmError::method_not_found("http", "delete");
    assert_eq!(err.code, ErrorCode::MethodNotFound);
    assert_eq!(err.message, "Method 'delete' not found on extension 'http'");
}

#[test]
fn test_runtime_error_codes() {
    assert_eq!(
        RuntimeError::Serialization("x".to_string())
            .to_wasm_error()
            .code,
        ErrorCode::SerializationError
    );
    assert_eq!(
        RuntimeError::Compilation("x".to_string()).to_wasm_error().code,
        ErrorCode::CompilationError
    );
    assert_eq!(
        RuntimeError::Instance("x".to_string()).to_wasm_error().code,
        ErrorCode::WasmError
    );
    assert_eq!(
        RuntimeError::Pool("x".to_string()).to_wasm_error().code,
        ErrorCode::InternalError
    );
}
