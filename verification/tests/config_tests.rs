use nexus_wasm_bridge::boundary::JsRuntimeConfig;
use nexus_wasm_bridge::config::DEFAULT_MAX_INSTANCES;
use nexus_wasm_bridge::config::DEFAULT_MEMORY_LIMIT_BYTES;
use nexus_wasm_bridge::config::RuntimeConfig;

#[test]
fn test_default_config() {
    let config = RuntimeConfig::default();
    assert_eq!(config.max_instances, DEFAULT_MAX_INSTANCES);
    assert_eq!(config.memory_limit_bytes, DEFAULT_MEMORY_LIMIT_BYTES);
    assert!(config.enable_simd);
    assert!(!config.enable_aot);
}

#[test]
fn test_config_builder() {
    let config = RuntimeConfig::new()
        .with_max_instances(20)
        .with_memory_limit(64 * 1024 * 1024)
        .with_aot(true);

    assert_eq!(config.max_instances, 20);
    assert_eq!(config.memory_limit_bytes, 64 * 1024 * 1024);
    assert!(config.enable_aot);
}

#[test]
fn test_config_validation() {
    let invalid = RuntimeConfig::new().with_max_instances(0);
    assert!(invalid.validate().is_err());

    let valid = RuntimeConfig::default();
    assert!(valid.validate().is_ok());
}

#[test]
fn test_config_validation_memory_floor() {
    let invalid = RuntimeConfig::new().with_memory_limit(1024);
    assert!(invalid.validate().is_err());
    let valid = RuntimeConfig::new().with_memory_limit(1024 * 1024);
    assert!(valid.validate().is_ok());
}

#[test]
fn test_config_validation_stack_floor() {
    let invalid = RuntimeConfig::new().with_stack_size(1024);
    assert!(invalid.validate().is_err());
    let valid = RuntimeConfig::new().with_stack_size(64 * 1024);
    assert!(valid.validate().is_ok());
}

#[test]
fn test_config_conversion() {
    let js_config = JsRuntimeConfig {
        max_instances: Some(20),
        min_instances: Some(5),
        memory_limit_bytes: Some(64 * 1024 * 1024),
        timeout_ms: Some(10000),
        max_host_calls: Some(2000),
        cache_dir: Some("/tmp/cache".to_string()),
        max_cache_size_bytes: Some(128 * 1024 * 1024),
    };

    let config: RuntimeConfig = js_config.to_runtime_config();

    assert_eq!(config.max_instances, 20);
    assert_eq!(config.min_instances, 5);
    assert_eq!(config.memory_limit_bytes, 64 * 1024 * 1024);
    assert_eq!(config.timeout_ms, 10000);
    assert_eq!(config.max_host_calls, 2000);
    assert_eq!(config.cache_dir, "/tmp/cache");
}
