use nexus_wasm_bridge::metrics::ExecutionMetrics;
use nexus_wasm_bridge::metrics::MetricsCollector;

#[test]
fn test_execution_metrics_default() {
    let metrics = ExecutionMetrics::default();
    assert_eq!(metrics.duration_us, 0);
    assert!(metrics.host_calls.is_empty());
    assert!(!metrics.cache_hit);
}

#[test]
fn test_execution_metrics_builder() {
    let metrics = ExecutionMetrics::new()
        .with_duration(100_000)
        .with_cache_hit(true)
        .with_memory(1000, 2000);

    assert_eq!(metrics.duration_us, 100_000);
    assert!(metrics.cache_hit);
    assert_eq!(metrics.memory_used_bytes, 1000);
    assert_eq!(metrics.memory_peak_bytes, 2000);
}

#[test]
fn test_increment_host_call() {
    let mut metrics = ExecutionMetrics::new();
    metrics.increment_host_call("state_get");
    metrics.increment_host_call("state_get");
    metrics.increment_host_call("emit_event");
    assert_eq!(metrics.total_host_calls(), 3);
    assert_eq!(metrics.host_calls[0].0, "state_get");
    assert_eq!(metrics.host_calls[0].1, 2);
    assert_eq!(metrics.host_calls[1].0, "emit_event");
    assert_eq!(metrics.host_calls[1].1, 1);
}

#[test]
fn test_metrics_collector() {
    let mut collector = MetricsCollector::new();

    let metrics = ExecutionMetrics::new().with_duration(10_000).with_cache_hit(true);

    collector.record_execution(&metrics, true);
    collector.record_execution(&metrics, false);

    assert_eq!(collector.total_executions(), 2);
    assert_eq!(collector.successful_executions(), 1);
    assert_eq!(collector.failed_executions(), 1);
}

#[test]
fn test_cache_hit_rate() {
    let mut collector = MetricsCollector::new();

    let hit = ExecutionMetrics::new().with_cache_hit(true);
    let miss = ExecutionMetrics::new().with_cache_hit(false);

    collector.record_execution(&hit, true);
    collector.record_execution(&hit, true);
    collector.record_execution(&miss, true);

    let rate = collector.cache_hit_rate_e4() as f64 / 10000.0;
    assert!((rate - 0.666).abs() < 0.01);
}

#[test]
fn test_prometheus_output() {
    let mut collector = MetricsCollector::new();
    let metrics = ExecutionMetrics::new();
    collector.record_execution(&metrics, true);

    let output = collector.to_prometheus();
    assert!(output.contains("nexus_handler_executions_total"));
    assert!(output.contains("nexus_cache_hit_rate"));
    assert!(output.contains("nexus_handler_executions_total{status=\"success\"} 1"));
}

#[test]
fn test_prometheus_labeled_counters() {
    let mut collector = MetricsCollector::new();
    let mut metrics = ExecutionMetrics::new();
    metrics.increment_host_call("state_get");
    collector.record_execution(&metrics, true);
    collector.record_error("TIMEOUT");

    let output = collector.to_prometheus();
    assert!(output.contains("nexus_host_calls_total{function=\"state_get\"} 1"));
    assert!(output.contains("nexus_errors_total{code=\"TIMEOUT\"} 1"));
}

#[test]
fn test_collector_reset() {
    let mut collector = MetricsCollector::new();
    collector.record_execution(&ExecutionMetrics::new(), true);
    collector.record_error("TIMEOUT");
    collector.reset();
    assert_eq!(collector.total_executions(), 0);
    assert_eq!(collector.cache_hit_rate_e4(), 0);
    assert!(collector.host_calls.is_empty());
    assert!(collector.error_counts.is_empty());
}
