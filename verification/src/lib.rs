//! Sandboxed handler-execution runtime for a reactive panel framework.
//!
//! The library models handler scripts executing in isolated guest
//! instances: compiled artifacts flow through a two-tier cache, a
//! bounded pool checks instances in and out across their lifecycle,
//! every host-callable operation is mediated by a capability checker,
//! and the effects a handler produces (state mutations, events, view
//! commands, log lines) are collected in order and returned with the
//! result or with a suspension record that a later resume completes.

use vstd::prelude::*;

pub mod boundary;
pub mod capability;
pub mod codec;
pub mod compiler;
pub mod config;
pub mod context;
pub mod engine;
pub mod error;
pub mod host;
pub mod inference;
pub mod instance;
pub mod metrics;
pub mod pool;
pub mod text;
pub mod value;
pub mod wire;

pub use capability::Capability;
pub use capability::CapabilityToken;
pub use config::RuntimeConfig;
pub use context::ExecutionContext;
pub use context::SuspensionDetails;
pub use context::WasmContext;
pub use context::WasmResult;
pub use engine::WasmRuntime;
pub use error::ErrorCode;
pub use error::WasmError;
pub use instance::WasmInstance;
pub use metrics::ExecutionMetrics;

verus! {

/// Library version tag.
pub const VERSION: &'static str = "1.0.0";

/// The guest-side wrapper source that binds the host surfaces
/// (`$state`, `$args`, `$emit`, `$view`, `$ext`, `$log`) around every
/// handler body; the compiler's prologue and epilogue together.
pub const QUICKJS_WRAPPER: &'static str = "(function(__nexus_state, __nexus_args, __nexus_scope) {\n    const $state = {\n        get: (key) => __nexus_state_get(key),\n        set: (key, value) => __nexus_state_set(key, value),\n        delete: (key) => __nexus_state_delete(key),\n        has: (key) => __nexus_state_has(key),\n        keys: () => __nexus_state_keys(),\n    };\n    const $args = __nexus_args;\n    const $emit = (name, payload) => __nexus_emit_event(name, payload);\n    const $view = {\n        setFilter: (viewId, filter) => __nexus_view_set_filter(viewId, filter),\n        scrollTo: (viewId, position) => __nexus_view_scroll_to(viewId, position),\n        focus: (viewId) => __nexus_view_focus(viewId),\n        command: (viewId, cmd, params) => __nexus_view_command(viewId, cmd, params),\n    };\n    const $ext = __nexus_ext_proxy();\n    const $log = {\n        debug: (msg) => __nexus_log(0, msg),\n        info: (msg) => __nexus_log(1, msg),\n        warn: (msg) => __nexus_log(2, msg),\n        error: (msg) => __nexus_log(3, msg),\n    };\n    // Handler code\n    \n})";

} // verus!
