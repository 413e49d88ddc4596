//! Host-facing boundary types: plain-field mirrors of the runtime's
//! payloads in which every structured value crosses as its canonical
//! binary encoding, together with the verified conversions.

use vstd::prelude::*;

use crate::capability::CapabilityToken;
use crate::codec::decode_value;
use crate::codec::encode_value;
use crate::config::DEFAULT_MAX_CACHE_SIZE_BYTES;
use crate::config::DEFAULT_MAX_INSTANCES;
use crate::config::DEFAULT_MAX_STATE_MUTATIONS;
use crate::config::DEFAULT_MAX_EVENTS;
use crate::config::DEFAULT_MIN_INSTANCES;
use crate::config::DEFAULT_STACK_SIZE_BYTES;
use crate::config::RuntimeConfig;
use crate::config::default_cache_dir;
use crate::context::AsyncResult;
use crate::context::ExecutionStatus;
use crate::context::WasmContext;
use crate::context::WasmResult;
use crate::error::RuntimeError;
use crate::value::RuntimeValue;
use crate::value::ValModel;
use crate::value::ValueMap;

verus! {

/// Host-facing configuration: every field optional, defaults applied
/// on conversion.
#[derive(Debug)]
pub struct JsRuntimeConfig {
    /// Pool ceiling.
    pub max_instances: Option<u32>,
    /// Pre-warm floor.
    pub min_instances: Option<u32>,
    /// Memory limit per instance in bytes.
    pub memory_limit_bytes: Option<u32>,
    /// Per-invocation wall-clock budget in milliseconds.
    pub timeout_ms: Option<u32>,
    /// Per-invocation host-call budget.
    pub max_host_calls: Option<u32>,
    /// Disk cache directory.
    pub cache_dir: Option<String>,
    /// Memory-tier cache ceiling in bytes.
    pub max_cache_size_bytes: Option<u32>,
}

impl JsRuntimeConfig {
    /// The runtime configuration this host configuration denotes, with
    /// defaults for every omitted field.
    pub fn to_runtime_config(self) -> (r: RuntimeConfig)
        ensures
            r.max_instances == (match self.max_instances {
                Some(n) => n as usize,
                None => DEFAULT_MAX_INSTANCES,
            }),
            r.min_instances == (match self.min_instances {
                Some(n) => n as usize,
                None => DEFAULT_MIN_INSTANCES,
            }),
            r.memory_limit_bytes == (match self.memory_limit_bytes {
                Some(n) => n as u64,
                None => crate::config::DEFAULT_MEMORY_LIMIT_BYTES,
            }),
            r.timeout_ms == (match self.timeout_ms {
                Some(n) => n,
                None => crate::config::DEFAULT_TIMEOUT_MS,
            }),
            r.max_host_calls == (match self.max_host_calls {
                Some(n) => n,
                None => crate::config::DEFAULT_MAX_HOST_CALLS,
            }),
            r.cache_dir@ == (match self.cache_dir {
                Some(d) => d@,
                None => ".nexus-cache"@,
            }),
            r.max_cache_size_bytes == (match self.max_cache_size_bytes {
                Some(n) => n as u64,
                None => DEFAULT_MAX_CACHE_SIZE_BYTES,
            }),
    {
        RuntimeConfig {
            max_instances: match self.max_instances {
                Some(n) => n as usize,
                None => DEFAULT_MAX_INSTANCES,
            },
            min_instances: match self.min_instances {
                Some(n) => n as usize,
                None => DEFAULT_MIN_INSTANCES,
            },
            memory_limit_bytes: match self.memory_limit_bytes {
                Some(n) => n as u64,
                None => crate::config::DEFAULT_MEMORY_LIMIT_BYTES,
            },
            stack_size_bytes: DEFAULT_STACK_SIZE_BYTES,
            timeout_ms: match self.timeout_ms {
                Some(n) => n,
                None => crate::config::DEFAULT_TIMEOUT_MS,
            },
            max_host_calls: match self.max_host_calls {
                Some(n) => n,
                None => crate::config::DEFAULT_MAX_HOST_CALLS,
            },
            max_state_mutations: DEFAULT_MAX_STATE_MUTATIONS,
            max_events: DEFAULT_MAX_EVENTS,
            enable_simd: true,
            enable_bulk_memory: true,
            quickjs_module_path: None,
            enable_aot: false,
            cache_dir: match self.cache_dir {
                Some(d) => d,
                None => default_cache_dir(),
            },
            max_cache_size_bytes: match self.max_cache_size_bytes {
                Some(n) => n as u64,
                None => DEFAULT_MAX_CACHE_SIZE_BYTES,
            },
            debug: false,
        }
    }
}

/// Host-facing invocation context: structured payloads cross as
/// binary-encoded object values.
#[derive(Debug)]
pub struct JsWasmContext {
    /// Panel id.
    pub panel_id: String,
    /// Handler name.
    pub handler_name: String,
    /// Encoded state snapshot object; empty means an empty snapshot.
    pub state: Vec<u8>,
    /// Encoded arguments object; empty means no arguments.
    pub args: Vec<u8>,
    /// Encoded scope object; empty means an empty scope.
    pub scope: Vec<u8>,
    /// Granted capability strings.
    pub capabilities: Vec<String>,
}

/// Whether a payload buffer decodes to exactly one object value.
pub open spec fn decodes_to_map(bytes: Seq<u8>, map: Seq<(Seq<char>, ValModel)>) -> bool {
    if bytes.len() == 0 {
        map.len() == 0
    } else {
        crate::codec::dec_value(bytes) == Some(
            (ValModel::Object(map), bytes.len() as nat),
        )
    }
}

/// Whether a payload buffer is acceptable as a map: empty, or one
/// whole object value.
pub open spec fn map_payload_ok(bytes: Seq<u8>) -> bool {
    bytes.len() == 0 || (match crate::codec::dec_value(bytes) {
        Some(p) => p.0 is Object && p.1 == bytes.len(),
        None => false,
    })
}

/// Whether a payload buffer is acceptable as a value: empty, or one
/// whole value.
pub open spec fn value_payload_ok(bytes: Seq<u8>) -> bool {
    bytes.len() == 0 || (match crate::codec::dec_value(bytes) {
        Some(p) => p.1 == bytes.len(),
        None => false,
    })
}

/// Decodes an encoded object payload into a value map; an empty
/// buffer means an empty map.
fn decode_map_payload(bytes: &Vec<u8>) -> (r: Result<ValueMap, RuntimeError>)
    ensures
        match r {
            Ok(map) => decodes_to_map(bytes@, map.model()) && map_payload_ok(bytes@),
            Err(_) => !map_payload_ok(bytes@),
        },
{
    if bytes.len() == 0 {
        return Ok(ValueMap::new());
    }
    match decode_value(bytes) {
        Some(v) => match v {
            RuntimeValue::Object(map) => Ok(map),
            _ => Err(
                RuntimeError::Serialization("payload is not an object value".to_owned()),
            ),
        },
        None => Err(RuntimeError::Serialization("payload failed to decode".to_owned())),
    }
}

impl JsWasmContext {
    /// The invocation context this host context denotes: payloads
    /// decoded, capability strings parsed, unparsable grants dropped.
    pub fn to_wasm_context(self) -> (r: Result<WasmContext, RuntimeError>)
        ensures
            r is Err <==> !(map_payload_ok(self.state@) && map_payload_ok(self.args@)
                && map_payload_ok(self.scope@)),
            match r {
                Ok(ctx) => {
                    &&& ctx.panel_id@ == self.panel_id@
                    &&& ctx.handler_name@ == self.handler_name@
                    &&& decodes_to_map(self.state@, ctx.state_snapshot.model())
                    &&& decodes_to_map(self.args@, ctx.args.model())
                    &&& decodes_to_map(self.scope@, ctx.scope.model())
                    &&& crate::capability::caps_model(ctx.capabilities@) == parsed_grants(
                        crate::text::seq_views(self.capabilities@),
                    )
                    &&& ctx.extension_registry.model().len() == 0
                },
                Err(_) => true,
            },
    {
        let state_snapshot = match decode_map_payload(&self.state) {
            Ok(m) => m,
            Err(e) => {
                return Err(e);
            },
        };
        let args = match decode_map_payload(&self.args) {
            Ok(m) => m,
            Err(e) => {
                return Err(e);
            },
        };
        let scope = match decode_map_payload(&self.scope) {
            Ok(m) => m,
            Err(e) => {
                return Err(e);
            },
        };
        let n = self.capabilities.len();
        let mut capabilities: Vec<CapabilityToken> = Vec::new();
        let mut i: usize = 0;
        while i < n
            invariant
                i <= n,
                n == self.capabilities@.len(),
                crate::capability::caps_model(capabilities@) == parsed_grants(
                    crate::text::seq_views(self.capabilities@).take(i as int),
                ),
            decreases n - i,
        {
            let ghost views = crate::text::seq_views(self.capabilities@);
            let ghost pre = crate::capability::caps_model(capabilities@);
            proof {
                assert(views.take(i + 1).drop_last() =~= views.take(i as int));
                assert(views.take(i + 1).last() == views[i as int]);
            }
            match CapabilityToken::parse(self.capabilities[i].as_str()) {
                Some(t) => {
                    capabilities.push(t);
                    proof {
                        assert(crate::capability::caps_model(capabilities@) =~= pre.push(
                            t.model(),
                        ));
                    }
                },
                None => {},
            }
            i += 1;
        }
        proof {
            assert(crate::text::seq_views(self.capabilities@).take(n as int)
                =~= crate::text::seq_views(self.capabilities@));
        }
        Ok(
            WasmContext {
                panel_id: self.panel_id,
                handler_name: self.handler_name,
                state_snapshot,
                args,
                capabilities,
                scope,
                extension_registry: crate::context::ExtensionRegistry::new(),
            },
        )
    }
}

/// The capability models a sequence of grant strings denotes, with
/// strings outside the grammar dropped.
pub open spec fn parsed_grants(grants: Seq<Seq<char>>) -> Seq<crate::capability::CapModel>
    decreases grants.len(),
{
    if grants.len() == 0 {
        Seq::empty()
    } else {
        parsed_grants(grants.drop_last()) + (match crate::capability::spec_parse(
            grants.last(),
        ) {
            Some(t) => seq![t],
            None => Seq::empty(),
        })
    }
}

/// Host-facing suspension details.
#[derive(Debug)]
pub struct JsSuspension {
    /// Suspension id.
    pub suspension_id: String,
    /// Extension name.
    pub extension_name: String,
    /// Method name.
    pub method: String,
    /// Encoded argument array.
    pub args: Vec<u8>,
}

/// Host-facing error details.
#[derive(Debug)]
pub struct JsWasmError {
    /// Error code name.
    pub code: String,
    /// Error message.
    pub message: String,
    /// Source location, if known.
    pub location: Option<JsLocation>,
}

/// Host-facing source location.
#[derive(Debug)]
pub struct JsLocation {
    /// Line number, 1-indexed.
    pub line: u32,
    /// Column number, 1-indexed.
    pub column: u32,
    /// Snippet text around the location, if known.
    pub source_snippet: Option<String>,
}

/// Host-facing execution metrics.
#[derive(Debug, Clone, Copy, PartialEq, Eq, Structural)]
pub struct JsMetrics {
    /// Execution time in microseconds.
    pub execution_time_us: u64,
    /// Memory used in bytes.
    pub memory_used_bytes: u64,
    /// Peak memory in bytes.
    pub memory_peak_bytes: u64,
    /// Total host function calls.
    pub host_calls: u32,
    /// Whether the artifact came from a cache tier.
    pub cache_hit: bool,
}

/// Host-facing execution result: structured payloads cross as binary
/// encodings.
#[derive(Debug)]
pub struct JsWasmResult {
    /// Status name: `success`, `error` or `suspended`.
    pub status: String,
    /// Encoded return value, when the handler completed with one.
    pub return_value: Option<Vec<u8>>,
    /// Encoded mutation array.
    pub state_mutations: Vec<u8>,
    /// Encoded event array.
    pub events: Vec<u8>,
    /// Encoded view-command array.
    pub view_commands: Vec<u8>,
    /// Suspension details, when suspended.
    pub suspension: Option<JsSuspension>,
    /// Error details, when failed.
    pub error: Option<JsWasmError>,
    /// Execution metrics.
    pub metrics: JsMetrics,
}

/// The status name of an execution status.
pub open spec fn spec_status_name(s: ExecutionStatus) -> Seq<char> {
    match s {
        ExecutionStatus::Success => "success"@,
        ExecutionStatus::Error => "error"@,
        ExecutionStatus::Suspended => "suspended"@,
    }
}

impl JsWasmResult {
    /// The host-facing form of a result: status named, every
    /// structured payload in its canonical binary encoding.
    pub fn from_wasm_result(res: &WasmResult) -> (r: JsWasmResult)
        ensures
            r.status@ == spec_status_name(res.status),
            r.state_mutations@ == crate::codec::enc_value(
                ValModel::Array(
                    res.model().state_mutations.map_values(
                        |m: crate::context::MutationModel| crate::wire::val_of_mutation(m),
                    ),
                ),
            ),
            r.events@ == crate::codec::enc_value(
                ValModel::Array(
                    res.model().events.map_values(
                        |e: crate::context::EventModel| crate::wire::val_of_event(e),
                    ),
                ),
            ),
            r.view_commands@ == crate::codec::enc_value(
                ValModel::Array(
                    res.model().view_commands.map_values(
                        |c: crate::context::ViewCommandModel| crate::wire::val_of_command(c),
                    ),
                ),
            ),
            r.metrics.execution_time_us == res.metrics.duration_us,
            r.metrics.memory_used_bytes == res.metrics.memory_used_bytes,
            r.metrics.memory_peak_bytes == res.metrics.memory_peak_bytes,
            r.metrics.host_calls == crate::metrics::clamp32(
                crate::metrics::spec_counts_sum(
                    crate::metrics::counts32_model(res.metrics.host_calls@),
                ) as int,
            ),
            r.metrics.cache_hit == res.metrics.cache_hit,
            (match (r.return_value, res.return_value) {
                (Some(b), Some(v)) => b@ == crate::codec::enc_value(v.model()),
                (None, None) => true,
                _ => false,
            }),
            (match (r.suspension, res.suspension) {
                (Some(js), Some(sd)) => js.suspension_id@ == sd.suspension_id@
                    && js.extension_name@ == sd.extension_name@ && js.method@ == sd.method@
                    && js.args@ == crate::codec::enc_value(
                    ValModel::Array(crate::value::arr_model(sd.args@)),
                ),
                (None, None) => true,
                _ => false,
            }),
            (match (r.error, res.error) {
                (Some(je), Some(e)) => je.code@ == crate::error::spec_code_name(e.code)
                    && je.message@ == e.message@ && (match (je.location, e.location) {
                    (Some(jl), Some(l)) => jl.line == l.line && jl.column == l.column && (
                    match (jl.source_snippet, e.snippet) {
                        (Some(ss), Some(sn)) => ss@ == sn.code@,
                        (None, None) => true,
                        _ => false,
                    }),
                    (None, None) => true,
                    _ => false,
                }),
                (None, None) => true,
                _ => false,
            }),
    {
        let status = match res.status {
            ExecutionStatus::Success => "success".to_owned(),
            ExecutionStatus::Error => "error".to_owned(),
            ExecutionStatus::Suspended => "suspended".to_owned(),
        };
        let return_value = match &res.return_value {
            Some(v) => Some(encode_value(v)),
            None => None,
        };
        let muts_val = crate::wire::fold_mutations(&res.state_mutations);
        let evs_val = crate::wire::fold_events(&res.events);
        let cmds_val = crate::wire::fold_commands(&res.view_commands);
        let suspension = match &res.suspension {
            Some(sd) => {
                let args_val = crate::value::RuntimeValue::Array(
                    crate::instance::clone_values(&sd.args),
                );
                Some(
                    JsSuspension {
                        suspension_id: sd.suspension_id.clone(),
                        extension_name: sd.extension_name.clone(),
                        method: sd.method.clone(),
                        args: encode_value(&args_val),
                    },
                )
            },
            None => None,
        };
        let error = match &res.error {
            Some(e) => Some(
                JsWasmError {
                    code: e.code.code_name(),
                    message: e.message.clone(),
                    location: match &e.location {
                        Some(loc) => Some(
                            JsLocation {
                                line: loc.line,
                                column: loc.column,
                                source_snippet: match &e.snippet {
                                    Some(sn) => Some(sn.code.clone()),
                                    None => None,
                                },
                            },
                        ),
                        None => None,
                    },
                },
            ),
            None => None,
        };
        JsWasmResult {
            status,
            return_value,
            state_mutations: encode_value(&muts_val),
            events: encode_value(&evs_val),
            view_commands: encode_value(&cmds_val),
            suspension,
            error,
            metrics: JsMetrics {
                execution_time_us: res.metrics.duration_us,
                memory_used_bytes: res.metrics.memory_used_bytes,
                memory_peak_bytes: res.metrics.memory_peak_bytes,
                host_calls: res.metrics.total_host_calls(),
                cache_hit: res.metrics.cache_hit,
            },
        }
    }
}

/// Host-facing async result for resumption.
#[derive(Debug)]
pub struct JsAsyncResult {
    /// Whether the extension call succeeded.
    pub success: bool,
    /// Encoded result value, when it succeeded.
    pub value: Option<Vec<u8>>,
    /// Error message, when it failed.
    pub error: Option<String>,
}

impl JsAsyncResult {
    /// The async result this host result denotes; an undecodable value
    /// payload is refused, an empty one means the null value.
    pub fn to_async_result(self) -> (r: Result<AsyncResult, RuntimeError>)
        ensures
            r is Err <==> (match self.value {
                Some(b) => !value_payload_ok(b@),
                None => false,
            }),
            match r {
                Ok(ar) => {
                    &&& ar.success == self.success
                    &&& ar.error == self.error
                    &&& (match (ar.value, self.value) {
                        (Some(v), Some(bytes)) => {
                            if bytes@.len() == 0 {
                                v.model() is Null
                            } else {
                                crate::codec::dec_value(bytes@) == Some(
                                    (v.model(), bytes@.len() as nat),
                                )
                            }
                        },
                        (None, None) => true,
                        _ => false,
                    })
                },
                Err(_) => true,
            },
    {
        let value = match &self.value {
            Some(bytes) => {
                if bytes.len() == 0 {
                    Some(RuntimeValue::Null)
                } else {
                    match decode_value(bytes) {
                        Some(v) => Some(v),
                        None => {
                            return Err(
                                RuntimeError::Serialization(
                                    "async value failed to decode".to_owned(),
                                ),
                            );
                        },
                    }
                }
            },
            None => None,
        };
        Ok(AsyncResult { success: self.success, value, error: self.error })
    }
}

} // verus!
