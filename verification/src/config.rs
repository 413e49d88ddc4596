//! Runtime configuration: pool sizing, per-instance memory and stack
//! budgets, per-invocation limits, cache settings and feature flags,
//! with defaults and validation.

use vstd::prelude::*;

use crate::error::ConfigError;

verus! {

/// Default memory limit per instance (32 MiB).
pub const DEFAULT_MEMORY_LIMIT_BYTES: u64 = 32 * 1024 * 1024;

/// Default stack size per instance (1 MiB).
pub const DEFAULT_STACK_SIZE_BYTES: u64 = 1024 * 1024;

/// Default pool ceiling.
pub const DEFAULT_MAX_INSTANCES: usize = 10;

/// Default pre-warm floor.
pub const DEFAULT_MIN_INSTANCES: usize = 1;

/// Default per-invocation wall-clock budget in milliseconds.
pub const DEFAULT_TIMEOUT_MS: u32 = 5000;

/// Default per-invocation host-call budget.
pub const DEFAULT_MAX_HOST_CALLS: u32 = 10000;

/// Default per-invocation state-mutation budget.
pub const DEFAULT_MAX_STATE_MUTATIONS: u32 = 1000;

/// Default per-invocation event budget.
pub const DEFAULT_MAX_EVENTS: u32 = 100;

/// Default memory-tier cache ceiling (64 MiB).
pub const DEFAULT_MAX_CACHE_SIZE_BYTES: u64 = 64 * 1024 * 1024;

/// The default disk cache directory name.
pub fn default_cache_dir() -> (r: String)
    ensures
        r@ == ".nexus-cache"@,
{
    ".nexus-cache".to_owned()
}

/// Configuration of the runtime.
#[derive(Debug)]
pub struct RuntimeConfig {
    /// Pool ceiling: most instances alive at once.
    pub max_instances: usize,
    /// Pre-warm floor: instances created at construction.
    pub min_instances: usize,
    /// Memory limit per instance in bytes.
    pub memory_limit_bytes: u64,
    /// Stack size per instance in bytes.
    pub stack_size_bytes: u64,
    /// Per-invocation wall-clock budget in milliseconds.
    pub timeout_ms: u32,
    /// Per-invocation host-call budget.
    pub max_host_calls: u32,
    /// Per-invocation state-mutation budget.
    pub max_state_mutations: u32,
    /// Per-invocation event budget.
    pub max_events: u32,
    /// Whether SIMD instructions are enabled (advisory).
    pub enable_simd: bool,
    /// Whether bulk memory operations are enabled (advisory).
    pub enable_bulk_memory: bool,
    /// Path to an alternative guest module, if any.
    pub quickjs_module_path: Option<String>,
    /// Whether ahead-of-time compilation is enabled (advisory).
    pub enable_aot: bool,
    /// Disk cache directory.
    pub cache_dir: String,
    /// Memory-tier cache ceiling in bytes.
    pub max_cache_size_bytes: u64,
    /// Whether debug mode is enabled.
    pub debug: bool,
}

impl Default for RuntimeConfig {
    /// The configuration holding every default.
    fn default() -> (r: RuntimeConfig)
        ensures
            r.max_instances == DEFAULT_MAX_INSTANCES,
            r.min_instances == DEFAULT_MIN_INSTANCES,
            r.memory_limit_bytes == DEFAULT_MEMORY_LIMIT_BYTES,
            r.stack_size_bytes == DEFAULT_STACK_SIZE_BYTES,
            r.timeout_ms == DEFAULT_TIMEOUT_MS,
            r.max_host_calls == DEFAULT_MAX_HOST_CALLS,
            r.max_state_mutations == DEFAULT_MAX_STATE_MUTATIONS,
            r.max_events == DEFAULT_MAX_EVENTS,
            r.enable_simd,
            r.enable_bulk_memory,
            r.quickjs_module_path is None,
            !r.enable_aot,
            r.cache_dir@ == ".nexus-cache"@,
            r.max_cache_size_bytes == DEFAULT_MAX_CACHE_SIZE_BYTES,
            !r.debug,
    {
        RuntimeConfig {
            max_instances: DEFAULT_MAX_INSTANCES,
            min_instances: DEFAULT_MIN_INSTANCES,
            memory_limit_bytes: DEFAULT_MEMORY_LIMIT_BYTES,
            stack_size_bytes: DEFAULT_STACK_SIZE_BYTES,
            timeout_ms: DEFAULT_TIMEOUT_MS,
            max_host_calls: DEFAULT_MAX_HOST_CALLS,
            max_state_mutations: DEFAULT_MAX_STATE_MUTATIONS,
            max_events: DEFAULT_MAX_EVENTS,
            enable_simd: true,
            enable_bulk_memory: true,
            quickjs_module_path: None,
            enable_aot: false,
            cache_dir: default_cache_dir(),
            max_cache_size_bytes: DEFAULT_MAX_CACHE_SIZE_BYTES,
            debug: false,
        }
    }
}

impl Clone for RuntimeConfig {
    /// Copy with the same settings.
    fn clone(&self) -> (r: Self)
        ensures
            r.max_instances == self.max_instances,
            r.min_instances == self.min_instances,
            r.memory_limit_bytes == self.memory_limit_bytes,
            r.stack_size_bytes == self.stack_size_bytes,
            r.timeout_ms == self.timeout_ms,
            r.max_host_calls == self.max_host_calls,
            r.max_state_mutations == self.max_state_mutations,
            r.max_events == self.max_events,
            r.enable_simd == self.enable_simd,
            r.enable_bulk_memory == self.enable_bulk_memory,
            match (r.quickjs_module_path, self.quickjs_module_path) {
                (Some(a), Some(b)) => a@ == b@,
                (None, None) => true,
                _ => false,
            },
            r.enable_aot == self.enable_aot,
            r.cache_dir@ == self.cache_dir@,
            r.max_cache_size_bytes == self.max_cache_size_bytes,
            r.debug == self.debug,
    {
        RuntimeConfig {
            max_instances: self.max_instances,
            min_instances: self.min_instances,
            memory_limit_bytes: self.memory_limit_bytes,
            stack_size_bytes: self.stack_size_bytes,
            timeout_ms: self.timeout_ms,
            max_host_calls: self.max_host_calls,
            max_state_mutations: self.max_state_mutations,
            max_events: self.max_events,
            enable_simd: self.enable_simd,
            enable_bulk_memory: self.enable_bulk_memory,
            quickjs_module_path: match &self.quickjs_module_path {
                Some(p) => Some(p.clone()),
                None => None,
            },
            enable_aot: self.enable_aot,
            cache_dir: self.cache_dir.clone(),
            max_cache_size_bytes: self.max_cache_size_bytes,
            debug: self.debug,
        }
    }
}

impl RuntimeConfig {
    /// Creates a configuration with default values.
    pub fn new() -> (r: RuntimeConfig)
        ensures
            r.max_instances == DEFAULT_MAX_INSTANCES,
            r.min_instances == DEFAULT_MIN_INSTANCES,
            r.memory_limit_bytes == DEFAULT_MEMORY_LIMIT_BYTES,
            r.stack_size_bytes == DEFAULT_STACK_SIZE_BYTES,
            r.timeout_ms == DEFAULT_TIMEOUT_MS,
            r.max_host_calls == DEFAULT_MAX_HOST_CALLS,
            r.max_state_mutations == DEFAULT_MAX_STATE_MUTATIONS,
            r.max_events == DEFAULT_MAX_EVENTS,
            r.enable_simd,
            r.enable_bulk_memory,
            r.quickjs_module_path is None,
            !r.enable_aot,
            r.cache_dir@ == ".nexus-cache"@,
            r.max_cache_size_bytes == DEFAULT_MAX_CACHE_SIZE_BYTES,
            !r.debug,
    {
        Default::default()
    }

    /// Sets the pool ceiling.
    pub fn with_max_instances(self, max: usize) -> (r: RuntimeConfig)
        ensures
            r == (RuntimeConfig { max_instances: max, ..self }),
    {
        RuntimeConfig { max_instances: max, ..self }
    }

    /// Sets the memory limit per instance.
    pub fn with_memory_limit(self, bytes: u64) -> (r: RuntimeConfig)
        ensures
            r == (RuntimeConfig { memory_limit_bytes: bytes, ..self }),
    {
        RuntimeConfig { memory_limit_bytes: bytes, ..self }
    }

    /// Sets the stack size per instance.
    pub fn with_stack_size(self, bytes: u64) -> (r: RuntimeConfig)
        ensures
            r == (RuntimeConfig { stack_size_bytes: bytes, ..self }),
    {
        RuntimeConfig { stack_size_bytes: bytes, ..self }
    }

    /// Enables or disables SIMD.
    pub fn with_simd(self, enable: bool) -> (r: RuntimeConfig)
        ensures
            r == (RuntimeConfig { enable_simd: enable, ..self }),
    {
        RuntimeConfig { enable_simd: enable, ..self }
    }

    /// Sets the guest module path.
    pub fn with_quickjs_path(self, path: String) -> (r: RuntimeConfig)
        ensures
            r == (RuntimeConfig { quickjs_module_path: Some(path), ..self }),
    {
        RuntimeConfig { quickjs_module_path: Some(path), ..self }
    }

    /// Enables or disables ahead-of-time compilation.
    pub fn with_aot(self, enable: bool) -> (r: RuntimeConfig)
        ensures
            r == (RuntimeConfig { enable_aot: enable, ..self }),
    {
        RuntimeConfig { enable_aot: enable, ..self }
    }

    /// Sets the disk cache directory.
    pub fn with_cache_dir(self, path: String) -> (r: RuntimeConfig)
        ensures
            r == (RuntimeConfig { cache_dir: path, ..self }),
    {
        RuntimeConfig { cache_dir: path, ..self }
    }

    /// Enables or disables debug mode.
    pub fn with_debug(self, debug: bool) -> (r: RuntimeConfig)
        ensures
            r == (RuntimeConfig { debug, ..self }),
    {
        RuntimeConfig { debug, ..self }
    }

    /// Whether the configuration is acceptable: at least one instance,
    /// at least 1 MiB of memory and 64 KiB of stack per instance.
    pub open spec fn valid(self) -> bool {
        self.max_instances >= 1 && self.memory_limit_bytes >= 1024 * 1024
            && self.stack_size_bytes >= 64 * 1024
    }

    /// Validates the configuration, naming the first offending field.
    pub fn validate(&self) -> (r: Result<(), ConfigError>)
        ensures
            r is Ok <==> self.valid(),
            match r {
                Ok(_) => true,
                Err(e) => match e {
                    ConfigError::InvalidValue { field, reason: _ } => (self.max_instances == 0
                        ==> field@ == "max_instances"@) && (self.max_instances >= 1
                        && self.memory_limit_bytes < 1024 * 1024 ==> field@
                        == "memory_limit_bytes"@) && (self.max_instances >= 1
                        && self.memory_limit_bytes >= 1024 * 1024 ==> field@
                        == "stack_size_bytes"@),
                    _ => false,
                },
            },
    {
        if self.max_instances == 0 {
            return Err(
                ConfigError::InvalidValue {
                    field: "max_instances".to_owned(),
                    reason: "must be greater than 0".to_owned(),
                },
            );
        }
        if self.memory_limit_bytes < 1024 * 1024 {
            return Err(
                ConfigError::InvalidValue {
                    field: "memory_limit_bytes".to_owned(),
                    reason: "must be at least 1MB".to_owned(),
                },
            );
        }
        if self.stack_size_bytes < 64 * 1024 {
            return Err(
                ConfigError::InvalidValue {
                    field: "stack_size_bytes".to_owned(),
                    reason: "must be at least 64KB".to_owned(),
                },
            );
        }
        Ok(())
    }
}

/// Per-invocation resource limits for handler execution.
#[derive(Debug, Clone, Copy, PartialEq, Eq, Structural)]
pub struct ResourceLimits {
    /// Wall-clock budget in milliseconds (0 means no limit).
    pub timeout_ms: u32,
    /// Memory budget per instance in bytes.
    pub memory_limit_bytes: u64,
    /// Stack budget in bytes.
    pub stack_size_bytes: u64,
    /// Host-call budget.
    pub max_host_calls: u32,
    /// State-mutation budget.
    pub max_state_mutations: u32,
    /// Event budget.
    pub max_events: u32,
}

impl Default for ResourceLimits {
    /// The limits holding every default.
    fn default() -> (r: ResourceLimits)
        ensures
            r == (ResourceLimits {
                timeout_ms: DEFAULT_TIMEOUT_MS,
                memory_limit_bytes: DEFAULT_MEMORY_LIMIT_BYTES,
                stack_size_bytes: DEFAULT_STACK_SIZE_BYTES,
                max_host_calls: DEFAULT_MAX_HOST_CALLS,
                max_state_mutations: DEFAULT_MAX_STATE_MUTATIONS,
                max_events: DEFAULT_MAX_EVENTS,
            }),
    {
        ResourceLimits {
            timeout_ms: DEFAULT_TIMEOUT_MS,
            memory_limit_bytes: DEFAULT_MEMORY_LIMIT_BYTES,
            stack_size_bytes: DEFAULT_STACK_SIZE_BYTES,
            max_host_calls: DEFAULT_MAX_HOST_CALLS,
            max_state_mutations: DEFAULT_MAX_STATE_MUTATIONS,
            max_events: DEFAULT_MAX_EVENTS,
        }
    }
}

impl ResourceLimits {
    /// The limits a configuration implies.
    pub fn from_config(config: &RuntimeConfig) -> (r: ResourceLimits)
        ensures
            r == (ResourceLimits {
                timeout_ms: config.timeout_ms,
                memory_limit_bytes: config.memory_limit_bytes,
                stack_size_bytes: config.stack_size_bytes,
                max_host_calls: config.max_host_calls,
                max_state_mutations: config.max_state_mutations,
                max_events: config.max_events,
            }),
    {
        ResourceLimits {
            timeout_ms: config.timeout_ms,
            memory_limit_bytes: config.memory_limit_bytes,
            stack_size_bytes: config.stack_size_bytes,
            max_host_calls: config.max_host_calls,
            max_state_mutations: config.max_state_mutations,
            max_events: config.max_events,
        }
    }
}

} // verus!
