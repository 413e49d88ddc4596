use nexus_wasm_bridge::compiler::HandlerCompiler;
use nexus_wasm_bridge::compiler::SourceMap;
use nexus_wasm_bridge::config::RuntimeConfig;

fn create_compiler() -> HandlerCompiler {
    let config = RuntimeConfig::default();
    HandlerCompiler::new(&config).unwrap()
}

#[test]
fn test_compiler_creation() {
    let compiler = create_compiler();
    let stats = compiler.get_stats();
    assert_eq!(stats.cache_entries, 0);
}

#[test]
fn test_compile_basic() {
    let mut compiler = create_compiler();
    let result = compiler.compile("return 42;", None).unwrap();

    assert!(!result.bytecode.is_empty());
    assert!(!result.cache_hit);
}

#[test]
fn test_cache_hit() {
    let mut compiler = create_compiler();
    let source = "return $state.get('count');";

    let result1 = compiler.compile(source, None).unwrap();
    assert!(!result1.cache_hit);

    let result2 = compiler.compile(source, None).unwrap();
    assert!(result2.cache_hit);

    assert_eq!(result1.bytecode, result2.bytecode);
}

#[test]
fn test_cache_key_different_sources() {
    let mut compiler = create_compiler();

    let result1 = compiler.compile("return 1;", None).unwrap();
    let result2 = compiler.compile("return 2;", None).unwrap();

    assert!(!result1.cache_hit);
    assert!(!result2.cache_hit);
    assert_ne!(result1.bytecode, result2.bytecode);
}

#[test]
fn test_source_map() {
    let source = "line1\nline2\nline3";
    let map = SourceMap::from_source(source);

    assert_eq!(map.get_location(0), (1, 1));
    assert_eq!(map.get_location(6), (2, 1));
    assert_eq!(map.get_location(12), (3, 1));
}

#[test]
fn test_source_map_snippet() {
    let source = "line1\nline2\nline3\nline4\nline5";
    let map = SourceMap::from_source(source);

    let snippet = map.get_snippet(3, 1);
    assert!(snippet.contains("line2"));
    assert!(snippet.contains("line3"));
    assert!(snippet.contains("line4"));
}

#[test]
fn test_source_map_snippet_marks_target() {
    let source = "alpha\nbeta\ngamma";
    let map = SourceMap::from_source(source);
    let snippet = map.get_snippet(2, 1);
    assert!(snippet.contains(">    2 | beta"));
    assert!(snippet.contains("     1 | alpha"));
    assert!(snippet.contains("     3 | gamma"));
}

#[test]
fn test_wrapped_handler() {
    let mut compiler = create_compiler();
    let result = compiler.compile("$state.set('x', 1);", None).unwrap();

    let wrapped = String::from_utf8(result.bytecode).unwrap();
    assert!(wrapped.contains("$state"));
    assert!(wrapped.contains("$emit"));
    assert!(wrapped.contains("$view"));
    assert!(wrapped.contains("$ext"));
    assert!(wrapped.contains("$log"));
    assert!(wrapped.contains("$state.set('x', 1);"));
}

#[test]
fn test_stats() {
    let mut compiler = create_compiler();

    compiler.compile("return 1;", None).unwrap();
    compiler.compile("return 1;", None).unwrap();
    compiler.compile("return 2;", None).unwrap();

    let stats = compiler.get_stats();
    assert_eq!(stats.cache_hits, 1);
    assert_eq!(stats.cache_misses, 2);
    assert_eq!(stats.total_compilations, 2);
    let rate = stats.hit_rate_e4() as f64 / 10000.0;
    assert!((rate - 0.333).abs() < 0.01);
}

#[test]
fn test_clear_cache() {
    let mut compiler = create_compiler();

    compiler.compile("return 1;", None).unwrap();
    assert_eq!(compiler.get_stats().cache_entries, 1);

    compiler.clear_cache();
    assert_eq!(compiler.get_stats().cache_entries, 0);
}

#[test]
fn test_zero_budget_cache_always_misses() {
    let config = RuntimeConfig::default();
    let config = RuntimeConfig { max_cache_size_bytes: 0, ..config };
    let mut compiler = HandlerCompiler::new(&config).unwrap();

    let r1 = compiler.compile("return 1;", None).unwrap();
    assert!(!r1.cache_hit);
    let r2 = compiler.compile("return 1;", None).unwrap();
    assert!(!r2.cache_hit);
    assert_eq!(r1.bytecode, r2.bytecode);
    assert_eq!(compiler.get_stats().cache_entries, 0);
    assert_eq!(compiler.get_stats().cache_size_bytes, 0);
}

#[test]
fn test_fingerprint_shape() {
    let compiler = create_compiler();
    let fp1 = compiler.fingerprint("return 1;");
    let fp2 = compiler.fingerprint("return 1;");
    let fp3 = compiler.fingerprint("return 2;");

    assert_eq!(fp1.len(), 64);
    assert_eq!(fp1, fp2);
    assert_ne!(fp1, fp3);
    assert!(fp1.chars().all(|c| c.is_ascii_hexdigit() && !c.is_ascii_uppercase()));
    assert!(!fp1.contains("return"));
}

#[test]
fn test_disk_artifact_counts_as_hit() {
    let mut compiler = create_compiler();
    let disk = vec![1u8, 2, 3];
    let r = compiler.compile("return 1;", Some(disk.clone())).unwrap();
    assert!(r.cache_hit);
    assert_eq!(r.bytecode, disk);

    let r2 = compiler.compile("return 1;", None).unwrap();
    assert!(r2.cache_hit);
    assert_eq!(r2.bytecode, disk);
}

#[test]
fn test_eviction_keeps_cache_within_budget() {
    let config = RuntimeConfig::default();
    let config = RuntimeConfig { max_cache_size_bytes: 4096, ..config };
    let mut compiler = HandlerCompiler::new(&config).unwrap();
    for i in 0..8 {
        let source = format!("return {};", i);
        compiler.compile(&source, None).unwrap();
        assert!(compiler.get_stats().cache_size_bytes <= 4096);
    }
}
