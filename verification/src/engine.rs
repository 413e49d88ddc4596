//! The engine façade: compile through the cache, check an instance
//! out of the pool, run the invocation, release the instance, record
//! metrics, and surface the structured result.

use vstd::prelude::*;

use crate::compiler::CompiledHandler;
use crate::compiler::HandlerCompiler;
use crate::compiler::compile_post;
use crate::config::RuntimeConfig;
use crate::context::AsyncResult;
use crate::context::ExecutionStatus;
use crate::context::WasmContext;
use crate::context::WasmResult;
use crate::error::ErrorCode;
use crate::error::RuntimeError;
use crate::instance::GuestScript;
use crate::instance::InstanceState;
use crate::metrics::MetricsCollector;
use crate::metrics::RuntimeStats;
use crate::pool::InstancePool;
use crate::pool::PooledInstance;

verus! {

/// How one recorded invocation moves the metrics aggregator: one
/// execution counted with the given success and cache flags, the
/// timeout code counted when one was recorded, and everything else
/// untouched (durations come from the clock and are not pinned).
pub open spec fn engine_metrics_post(
    pre: MetricsCollector,
    post: MetricsCollector,
    success: bool,
    hit: bool,
    timeout_recorded: bool,
) -> bool {
    &&& post.total_executions == crate::metrics::clamp64(pre.total_executions + 1)
    &&& post.successful_executions == (if success {
        crate::metrics::clamp64(pre.successful_executions + 1)
    } else {
        pre.successful_executions
    })
    &&& post.failed_executions == (if success {
        pre.failed_executions
    } else {
        crate::metrics::clamp64(pre.failed_executions + 1)
    })
    &&& post.cache_hits == (if hit {
        crate::metrics::clamp64(pre.cache_hits + 1)
    } else {
        pre.cache_hits
    })
    &&& post.cache_misses == (if hit {
        pre.cache_misses
    } else {
        crate::metrics::clamp64(pre.cache_misses + 1)
    })
    &&& post.peak_memory == pre.peak_memory
    &&& post.total_memory_used == pre.total_memory_used
    &&& crate::metrics::counts64_model(post.host_calls@) == crate::metrics::counts64_model(
        pre.host_calls@,
    )
    &&& crate::metrics::counts64_model(post.error_counts@) == (if timeout_recorded {
        crate::metrics::bump64(
            crate::metrics::counts64_model(pre.error_counts@),
            "TIMEOUT"@,
            1,
        )
    } else {
        crate::metrics::counts64_model(pre.error_counts@)
    })
}

/// How one invocation moves the pool counters: the checkout is
/// returned (net active change zero), and a suspended outcome parks
/// the instance against its held permit.
pub open spec fn engine_pool_post(
    pre: crate::pool::PoolCounts,
    post: crate::pool::PoolCounts,
    suspended_now: bool,
) -> bool {
    &&& post.active == pre.active
    &&& post.shutdown == pre.shutdown
    &&& (suspended_now ==> post.suspended == pre.suspended + 1 && post.permits == pre.permits
        - 1)
    &&& (!suspended_now ==> post.suspended == pre.suspended && post.permits == pre.permits)
}

/// The engine: configuration, instance pool, compiler cache and
/// metrics aggregator.
pub struct WasmRuntime {
    /// The validated configuration.
    pub config: RuntimeConfig,
    /// The instance pool.
    pub pool: InstancePool,
    /// The compiler with its cache.
    pub compiler: HandlerCompiler,
    /// The metrics aggregator.
    pub metrics: MetricsCollector,
}

impl WasmRuntime {
    /// Well-formed engines: the pool and cache invariants hold and the
    /// permit budget is within bounds.
    pub open spec fn wf(self) -> bool {
        &&& self.pool.wf()
        &&& self.compiler.wf()
        &&& self.pool.config.max_instances < usize::MAX
    }

    /// Builds a runtime from a configuration; an invalid configuration
    /// is refused with its validation error.
    pub fn new(config: RuntimeConfig) -> (r: Result<WasmRuntime, RuntimeError>)
        ensures
            config.valid() && config.max_instances < usize::MAX
                ==> match r {
                Ok(rt) => rt.wf() && !rt.pool.shutdown,
                Err(_) => false,
            },
            !config.valid() ==> r is Err,
    {
        match config.validate() {
            Ok(_) => {},
            Err(e) => {
                return Err(RuntimeError::Config(e));
            },
        }
        if config.max_instances == usize::MAX {
            return Err(
                RuntimeError::Config(
                    crate::error::ConfigError::InvalidValue {
                        field: "max_instances".to_owned(),
                        reason: "must be below the machine limit".to_owned(),
                    },
                ),
            );
        }
        let pool = match InstancePool::new(&config) {
            Ok(p) => p,
            Err(e) => {
                return Err(e);
            },
        };
        let compiler = match HandlerCompiler::new(&config) {
            Ok(c) => c,
            Err(e) => {
                return Err(e);
            },
        };
        Ok(WasmRuntime { config, pool, compiler, metrics: MetricsCollector::new() })
    }

    /// Compiles a handler source and returns the artifact bytes
    /// without executing; the caller may pass the disk-tier bytes of
    /// the fingerprint's artifact file, when one exists.
    pub fn precompile_handler(&mut self, handler_code: &str, disk_artifact: Option<Vec<u8>>) -> (
        r: Result<Vec<u8>, RuntimeError>)
        requires
            old(self).wf(),
        ensures
            final(self).wf(),
            final(self).pool == old(self).pool,
            match r {
                Ok(bytes) => bytes@ == (match old(self).compiler.entry_bytes(
                    crate::compiler::spec_fingerprint(handler_code@),
                ) {
                    Some(bs) => bs,
                    None => match disk_artifact {
                        Some(d) => d@,
                        None => crate::compiler::spec_compiled_bytes(handler_code@),
                    },
                }),
                Err(_) => false,
            },
    {
        match self.compiler.compile(handler_code, disk_artifact) {
            Ok(compiled) => Ok(compiled.bytecode),
            Err(e) => Err(e),
        }
    }

    /// Executes a handler: compile through the cache, check out an
    /// instance, run the guest, release the instance, record metrics.
    /// A shutdown pool refuses the execution; a wall-clock abort comes
    /// back as a timeout error result carrying the effects recorded
    /// before the abort.
    #[verifier::rlimit(100)]
    #[verifier::spinoff_prover]
    pub fn execute_handler(
        &mut self,
        handler_code: &str,
        context: WasmContext,
        timeout_ms: u32,
        script: &GuestScript,
        disk_artifact: Option<Vec<u8>>,
    ) -> (r: Result<WasmResult, RuntimeError>)
        requires
            old(self).wf(),
        ensures
            final(self).wf(),
            final(self).pool.shutdown == old(self).pool.shutdown,
            r is Err <==> (old(self).pool.shutdown || old(self).pool.permits == 0),
            r is Err ==> final(self).metrics == old(self).metrics && final(self).pool == old(self).pool,
            match r {
                Ok(res) => {
                    &&& res.metrics.cache_hit == (old(self).compiler.entry_bytes(
                        crate::compiler::spec_fingerprint(handler_code@),
                    ) is Some || disk_artifact is Some)
                    &&& crate::instance::execute_outcome_post(
                        crate::capability::caps_model(context.capabilities@),
                        context.extension_registry.model(),
                        old(self).pool.config_limits(),
                        crate::instance::empty_run_state(),
                        script,
                        timeout_ms,
                        res,
                    )
                    &&& (crate::instance::immediate_suspension(
                        script.ops@,
                        context,
                        old(self).pool.config_limits(),
                    ) ==> res.status == ExecutionStatus::Suspended
                        && res.model().state_mutations.len() == 0 && res.model().events.len()
                        == 0 && res.model().view_commands.len() == 0
                        && res.model().suspension is Some)
                    &&& (res.status == ExecutionStatus::Success ==> res.model().error is None)
                    &&& (res.status == ExecutionStatus::Error ==> res.model().error is Some)
                    &&& engine_metrics_post(
                        old(self).metrics,
                        final(self).metrics,
                        res.status == ExecutionStatus::Success || res.status
                            == ExecutionStatus::Suspended,
                        old(self).compiler.entry_bytes(
                            crate::compiler::spec_fingerprint(handler_code@),
                        ) is Some || disk_artifact is Some,
                        match res.model().error {
                            Some(e) => e.code == ErrorCode::Timeout,
                            None => false,
                        },
                    )
                    &&& engine_pool_post(
                        old(self).pool.counts(),
                        final(self).pool.counts(),
                        res.status == ExecutionStatus::Suspended,
                    )
                },
                Err(_) => true,
            },
    {
        let mut timer = crate::metrics::ExecutionTimer::start();
        timer.start_compilation();
        proof {
            assert(self.pool.active_count < usize::MAX);
        }
        let compiled = match self.compiler.compile(handler_code, disk_artifact) {
            Ok(c) => c,
            Err(e) => {
                return Err(e);
            },
        };
        timer.stop_compilation();
        let cache_hit = compiled.cache_hit;
        let mut pooled = match self.pool.acquire() {
            Ok(p) => p,
            Err(e) => {
                return Err(e);
            },
        };
        let exec_result = pooled.instance.execute(&compiled, context, timeout_ms, script);
        match exec_result {
            Ok(res) => {
                self.pool.release(pooled);
                let timed_out = match &res.error {
                    Some(e) => matches!(e.code, ErrorCode::Timeout),
                    None => false,
                };
                let run_metrics = timer.into_metrics(cache_hit);
                let success = matches!(res.status, ExecutionStatus::Success) || matches!(
                    res.status,
                    ExecutionStatus::Suspended,
                );
                self.metrics.record_execution(&run_metrics, success);
                if timed_out {
                    let code_name = ErrorCode::Timeout.code_name();
                    self.metrics.record_error(code_name.as_str());
                }
                let res = WasmResult {
                    metrics: res.metrics.with_cache_hit(cache_hit),
                    ..res
                };
                Ok(res)
            },
            Err(e) => {
                self.pool.release(pooled);
                let run_metrics = timer.into_metrics(cache_hit);
                self.metrics.record_execution(&run_metrics, false);
                let code_name = e.to_wasm_error().code.code_name();
                self.metrics.record_error(code_name.as_str());
                Err(e)
            },
        }
    }

    /// Executes a pre-compiled artifact: as `execute_handler`, with the
    /// compile skipped and the cache flag forced on.
    #[verifier::rlimit(100)]
    #[verifier::spinoff_prover]
    pub fn execute_compiled_handler(
        &mut self,
        bytecode: Vec<u8>,
        context: WasmContext,
        timeout_ms: u32,
        script: &GuestScript,
    ) -> (r: Result<WasmResult, RuntimeError>)
        requires
            old(self).wf(),
        ensures
            final(self).wf(),
            final(self).pool.shutdown == old(self).pool.shutdown,
            r is Err <==> (old(self).pool.shutdown || old(self).pool.permits == 0),
            r is Err ==> final(self).metrics == old(self).metrics && final(self).pool == old(self).pool,
            match r {
                Ok(res) => {
                    &&& res.metrics.cache_hit
                    &&& crate::instance::execute_outcome_post(
                        crate::capability::caps_model(context.capabilities@),
                        context.extension_registry.model(),
                        old(self).pool.config_limits(),
                        crate::instance::empty_run_state(),
                        script,
                        timeout_ms,
                        res,
                    )
                    &&& (res.status == ExecutionStatus::Success ==> res.model().error is None)
                    &&& (res.status == ExecutionStatus::Error ==> res.model().error is Some)
                    &&& engine_metrics_post(
                        old(self).metrics,
                        final(self).metrics,
                        res.status == ExecutionStatus::Success || res.status
                            == ExecutionStatus::Suspended,
                        true,
                        false,
                    )
                    &&& engine_pool_post(
                        old(self).pool.counts(),
                        final(self).pool.counts(),
                        res.status == ExecutionStatus::Suspended,
                    )
                },
                Err(_) => true,
            },
    {
        let timer = crate::metrics::ExecutionTimer::start();
        proof {
            assert(self.pool.active_count < usize::MAX);
        }
        let compiled = CompiledHandler { bytecode, source_map: None, cache_hit: true };
        let mut pooled = match self.pool.acquire() {
            Ok(p) => p,
            Err(e) => {
                return Err(e);
            },
        };
        let exec_result = pooled.instance.execute(&compiled, context, timeout_ms, script);
        match exec_result {
            Ok(res) => {
                self.pool.release(pooled);
                let run_metrics = timer.into_metrics(true);
                let success = matches!(res.status, ExecutionStatus::Success) || matches!(
                    res.status,
                    ExecutionStatus::Suspended,
                );
                self.metrics.record_execution(&run_metrics, success);
                let res = WasmResult { metrics: res.metrics.with_cache_hit(true), ..res };
                Ok(res)
            },
            Err(e) => {
                self.pool.release(pooled);
                let run_metrics = timer.into_metrics(true);
                self.metrics.record_execution(&run_metrics, false);
                Err(e)
            },
        }
    }

    /// Resumes a suspended handler by its suspension id; an unknown id
    /// is refused.  Upon completion the instance is released: back to
    /// the pool when idle again, or parked under its new suspension id
    /// when the guest suspended again.
    #[verifier::rlimit(100)]
    #[verifier::spinoff_prover]
    pub fn resume_handler(
        &mut self,
        suspension_id: &str,
        result: AsyncResult,
        script: &GuestScript,
    ) -> (r: Result<WasmResult, RuntimeError>)
        requires
            old(self).wf(),
        ensures
            final(self).wf(),
            final(self).pool.shutdown == old(self).pool.shutdown,
            match crate::pool::find_parked(old(self).pool.suspended@, suspension_id@) {
                None => r is Err && final(self).pool == old(self).pool && final(self).metrics
                    == old(self).metrics,
                Some(inst) => match r {
                    Ok(res) => {
                        &&& (match inst.context {
                            Some(prev) => {
                                &&& crate::instance::execute_outcome_post(
                                    crate::capability::caps_model(prev.capabilities@),
                                    prev.extension_registry.model(),
                                    old(self).pool.config_limits(),
                                    crate::instance::init_run_state(prev),
                                    script,
                                    old(self).pool.config_limits().timeout_ms,
                                    res,
                                )
                                &&& crate::context::mutations_model(
                                    prev.state_mutations@,
                                ).is_prefix_of(res.model().state_mutations)
                                &&& crate::context::events_model(prev.events@).is_prefix_of(
                                    res.model().events,
                                )
                                &&& crate::context::commands_model(
                                    prev.view_commands@,
                                ).is_prefix_of(res.model().view_commands)
                            },
                            None => false,
                        })
                        &&& (res.status == ExecutionStatus::Success
                            ==> res.model().error is None)
                        &&& (res.status == ExecutionStatus::Error
                            ==> res.model().error is Some)
                        &&& engine_metrics_post(
                            old(self).metrics,
                            final(self).metrics,
                            res.status == ExecutionStatus::Success || res.status
                                == ExecutionStatus::Suspended,
                            true,
                            false,
                        )
                        &&& final(self).pool.counts().active == old(self).pool.counts().active
                        &&& (res.status == ExecutionStatus::Suspended ==> final(self).pool.counts().suspended == old(self).pool.counts().suspended && final(self).pool.counts().permits == old(self).pool.counts().permits)
                        &&& (res.status != ExecutionStatus::Suspended ==> final(self).pool.counts().suspended == old(self).pool.counts().suspended - 1
                            && final(self).pool.counts().permits == old(self).pool.counts().permits + 1)
                    },
                    Err(_) => false,
                },
            },
    {
        proof {
            assert(self.pool.active_count < usize::MAX);
        }
        let mut pooled = match self.pool.get_suspended(suspension_id) {
            Some(p) => p,
            None => {
                return Err(RuntimeError::Suspension("Suspension not found".to_owned()));
            },
        };
        let timer = crate::metrics::ExecutionTimer::start();
        let resume_result = pooled.instance.resume(result, script);
        match resume_result {
            Ok(res) => {
                self.pool.release(pooled);
                let run_metrics = timer.into_metrics(true);
                let success = matches!(res.status, ExecutionStatus::Success) || matches!(
                    res.status,
                    ExecutionStatus::Suspended,
                );
                self.metrics.record_execution(&run_metrics, success);
                Ok(res)
            },
            Err(e) => {
                self.pool.release(pooled);
                let run_metrics = timer.into_metrics(true);
                self.metrics.record_execution(&run_metrics, false);
                Err(e)
            },
        }
    }

    /// Current runtime statistics.
    pub fn get_stats(&self) -> (r: RuntimeStats)
        ensures
            r.total_executions == self.metrics.total_executions,
            r.active_instances == self.pool.active_count,
            r.available_instances == self.pool.available@.len(),
            r.cache_hits == self.metrics.cache_hits,
            r.cache_misses == self.metrics.cache_misses,
            r.avg_execution_time_us == crate::metrics::spec_avg(
                self.metrics.total_execution_time_us as nat,
                self.metrics.total_executions as nat,
            ),
            r.total_memory_bytes == self.pool.total_memory,
    {
        RuntimeStats {
            total_executions: self.metrics.total_executions(),
            active_instances: self.pool.active_count(),
            available_instances: self.pool.available_count(),
            cache_hits: self.metrics.cache_hits,
            cache_misses: self.metrics.cache_misses,
            avg_execution_time_us: self.metrics.avg_execution_time_us(),
            total_memory_bytes: self.pool.total_memory(),
        }
    }

    /// The metrics in the line-oriented text format.
    pub fn get_prometheus_metrics(&self) -> (r: String)
        ensures
            r@ == crate::metrics::spec_prometheus_text(
                self.metrics.successful_executions,
                self.metrics.failed_executions,
                crate::metrics::spec_avg(
                    self.metrics.total_execution_time_us as nat,
                    self.metrics.total_executions as nat,
                ),
                crate::metrics::spec_rate_e4(
                    self.metrics.cache_hits as nat,
                    self.metrics.cache_misses as nat,
                ),
                self.metrics.peak_memory,
                crate::metrics::counts64_model(self.metrics.host_calls@),
                crate::metrics::counts64_model(self.metrics.error_counts@),
            ),
    {
        self.metrics.to_prometheus()
    }

    /// Shuts the runtime down: the pool terminates every instance and
    /// every further checkout fails.
    pub fn shutdown(&mut self) -> (r: Result<(), RuntimeError>)
        requires
            old(self).wf(),
        ensures
            final(self).wf(),
            final(self).pool.shutdown,
            r is Ok,
    {
        self.pool.shutdown();
        Ok(())
    }
}

} // verus!
