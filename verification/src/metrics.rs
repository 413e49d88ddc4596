//! Per-execution metrics, the runtime-wide aggregator, and its
//! line-oriented text export.

use vstd::prelude::*;

use crate::text::spec_decimal;
use crate::text::spec_zero_padded_decimal;
use crate::text::str_eq;
use crate::text::u64_to_decimal;
use crate::text::u64_to_decimal_zero_padded;

verus! {

/// A value clamped to the `u32` range.
pub open spec fn clamp32(n: int) -> u32 {
    if n > u32::MAX {
        u32::MAX
    } else if n < 0 {
        0
    } else {
        n as u32
    }
}

/// A value clamped to the `u64` range.
pub open spec fn clamp64(n: int) -> u64 {
    if n > u64::MAX {
        u64::MAX
    } else if n < 0 {
        0
    } else {
        n as u64
    }
}

/// Views of labeled 32-bit counters.
pub open spec fn counts32_model(v: Seq<(String, u32)>) -> Seq<(Seq<char>, u32)> {
    v.map_values(|p: (String, u32)| (p.0@, p.1))
}

/// Views of labeled 64-bit counters.
pub open spec fn counts64_model(v: Seq<(String, u64)>) -> Seq<(Seq<char>, u64)> {
    v.map_values(|p: (String, u64)| (p.0@, p.1))
}

/// Adds `c` to the counter labeled `name`, clamping at the maximum;
/// an absent label is appended with count `c`.
pub open spec fn bump64(s: Seq<(Seq<char>, u64)>, name: Seq<char>, c: int) -> Seq<
    (Seq<char>, u64),
>
    decreases s.len(),
{
    if s.len() == 0 {
        seq![(name, clamp64(c))]
    } else if s[0].0 == name {
        seq![(s[0].0, clamp64(s[0].1 + c))] + s.drop_first()
    } else {
        seq![s[0]] + bump64(s.drop_first(), name, c)
    }
}

/// All counters of `es` merged into `acc` in order.
pub open spec fn merge_counts(acc: Seq<(Seq<char>, u64)>, es: Seq<(Seq<char>, u32)>) -> Seq<
    (Seq<char>, u64),
>
    decreases es.len(),
{
    if es.len() == 0 {
        acc
    } else {
        bump64(merge_counts(acc, es.drop_last()), es.last().0, es.last().1 as int)
    }
}

/// Sum of labeled 32-bit counters.
pub open spec fn spec_counts_sum(s: Seq<(Seq<char>, u32)>) -> nat
    decreases s.len(),
{
    if s.len() == 0 {
        0
    } else {
        spec_counts_sum(s.drop_last()) + s.last().1 as nat
    }
}

/// Metrics collected for one handler execution.
#[derive(Debug)]
pub struct ExecutionMetrics {
    /// Execution duration in microseconds.
    pub duration_us: u64,
    /// Memory used in bytes.
    pub memory_used_bytes: u64,
    /// Peak memory in bytes.
    pub memory_peak_bytes: u64,
    /// Host function call counts by function name.
    pub host_calls: Vec<(String, u32)>,
    /// Approximate instruction count, if available.
    pub instruction_count: u64,
    /// Compilation time in microseconds, when the compile ran.
    pub compilation_time_us: Option<u64>,
    /// Whether the compilation cache was hit.
    pub cache_hit: bool,
}

impl Clone for ExecutionMetrics {
    /// Copy with the same counters.
    fn clone(&self) -> (r: Self)
        ensures
            r.duration_us == self.duration_us,
            r.memory_used_bytes == self.memory_used_bytes,
            r.memory_peak_bytes == self.memory_peak_bytes,
            counts32_model(r.host_calls@) == counts32_model(self.host_calls@),
            r.instruction_count == self.instruction_count,
            r.compilation_time_us == self.compilation_time_us,
            r.cache_hit == self.cache_hit,
    {
        let n = self.host_calls.len();
        let mut hc: Vec<(String, u32)> = Vec::new();
        let mut i: usize = 0;
        while i < n
            invariant
                i <= n,
                n == self.host_calls@.len(),
                hc@.len() == i,
                forall|j: int| 0 <= j < i ==> hc@[j].0@ == self.host_calls@[j].0@ && hc@[j].1
                    == self.host_calls@[j].1,
            decreases n - i,
        {
            let pair = (self.host_calls[i].0.clone(), self.host_calls[i].1);
            hc.push(pair);
            i += 1;
        }
        let r = ExecutionMetrics {
            duration_us: self.duration_us,
            memory_used_bytes: self.memory_used_bytes,
            memory_peak_bytes: self.memory_peak_bytes,
            host_calls: hc,
            instruction_count: self.instruction_count,
            compilation_time_us: self.compilation_time_us,
            cache_hit: self.cache_hit,
        };
        proof {
            assert(counts32_model(r.host_calls@) =~= counts32_model(self.host_calls@));
        }
        r
    }
}

impl Default for ExecutionMetrics {
    /// Metrics with every counter at zero.
    fn default() -> (r: ExecutionMetrics)
        ensures
            r.duration_us == 0,
            r.memory_used_bytes == 0,
            r.memory_peak_bytes == 0,
            r.host_calls@.len() == 0,
            r.instruction_count == 0,
            r.compilation_time_us is None,
            !r.cache_hit,
    {
        ExecutionMetrics {
            duration_us: 0,
            memory_used_bytes: 0,
            memory_peak_bytes: 0,
            host_calls: Vec::new(),
            instruction_count: 0,
            compilation_time_us: None,
            cache_hit: false,
        }
    }
}

impl ExecutionMetrics {
    /// Metrics with every counter at zero.
    pub fn new() -> (r: ExecutionMetrics)
        ensures
            r.duration_us == 0,
            r.memory_used_bytes == 0,
            r.memory_peak_bytes == 0,
            r.host_calls@.len() == 0,
            r.instruction_count == 0,
            r.compilation_time_us is None,
            !r.cache_hit,
    {
        Default::default()
    }

    /// Records the execution duration in microseconds.
    pub fn with_duration(self, duration_us: u64) -> (r: ExecutionMetrics)
        ensures
            r == (ExecutionMetrics { duration_us, ..self }),
    {
        ExecutionMetrics { duration_us, ..self }
    }

    /// Records memory usage.
    pub fn with_memory(self, used: u64, peak: u64) -> (r: ExecutionMetrics)
        ensures
            r == (ExecutionMetrics { memory_used_bytes: used, memory_peak_bytes: peak, ..self }),
    {
        ExecutionMetrics { memory_used_bytes: used, memory_peak_bytes: peak, ..self }
    }

    /// Records host call counts.
    pub fn with_host_calls(self, calls: Vec<(String, u32)>) -> (r: ExecutionMetrics)
        ensures
            r == (ExecutionMetrics { host_calls: calls, ..self }),
    {
        ExecutionMetrics { host_calls: calls, ..self }
    }

    /// Records the compilation time in microseconds.
    pub fn with_compilation_time(self, time_us: u64) -> (r: ExecutionMetrics)
        ensures
            r == (ExecutionMetrics { compilation_time_us: Some(time_us), ..self }),
    {
        ExecutionMetrics { compilation_time_us: Some(time_us), ..self }
    }

    /// Records whether the compilation cache was hit.
    pub fn with_cache_hit(self, hit: bool) -> (r: ExecutionMetrics)
        ensures
            r == (ExecutionMetrics { cache_hit: hit, ..self }),
    {
        ExecutionMetrics { cache_hit: hit, ..self }
    }

    /// Adds one to the counter for a host function, clamping at the
    /// maximum; an unseen function starts at one.
    pub fn increment_host_call(&mut self, function_name: &str)
        ensures
            counts32_model(final(self).host_calls@) == bump32(
                counts32_model(old(self).host_calls@),
                function_name@,
                1,
            ),
            final(self).duration_us == old(self).duration_us,
            final(self).memory_used_bytes == old(self).memory_used_bytes,
            final(self).memory_peak_bytes == old(self).memory_peak_bytes,
            final(self).instruction_count == old(self).instruction_count,
            final(self).compilation_time_us == old(self).compilation_time_us,
            final(self).cache_hit == old(self).cache_hit,
    {
        let n = self.host_calls.len();
        let mut i: usize = 0;
        while i < n
            invariant
                i <= n,
                n == self.host_calls@.len(),
                *self == *old(self),
                forall|j: int| 0 <= j < i ==> counts32_model(self.host_calls@)[j].0
                    != function_name@,
            decreases n - i,
        {
            if str_eq(self.host_calls[i].0.as_str(), function_name) {
                let ghost pre = counts32_model(self.host_calls@);
                let entry = self.host_calls.remove(i);
                let newc = entry.1.saturating_add(1);
                self.host_calls.insert(i, (entry.0, newc));
                proof {
                    lemma_bump32_found(pre, function_name@, 1int, i as int);
                    assert(counts32_model(self.host_calls@) =~= pre.update(
                        i as int,
                        (pre[i as int].0, clamp32(pre[i as int].1 + 1)),
                    ));
                }
                return ;
            }
            i += 1;
        }
        let ghost pre = counts32_model(self.host_calls@);
        self.host_calls.push((function_name.to_owned(), 1));
        proof {
            lemma_bump32_absent(pre, function_name@, 1int);
            assert(counts32_model(self.host_calls@) =~= pre.push((function_name@, 1u32)));
        }
    }

    /// Total host calls across functions, clamped at the maximum.
    pub fn total_host_calls(&self) -> (r: u32)
        ensures
            r == clamp32(spec_counts_sum(counts32_model(self.host_calls@)) as int),
    {
        let n = self.host_calls.len();
        let mut total: u32 = 0;
        let mut i: usize = 0;
        while i < n
            invariant
                i <= n,
                n == self.host_calls@.len(),
                total == clamp32(
                    spec_counts_sum(
                        counts32_model(self.host_calls@).subrange(0, i as int),
                    ) as int,
                ),
            decreases n - i,
        {
            let ghost sub1 = counts32_model(self.host_calls@).subrange(0, i + 1);
            proof {
                assert(sub1.drop_last() =~= counts32_model(self.host_calls@).subrange(
                    0,
                    i as int,
                ));
            }
            total = total.saturating_add(self.host_calls[i].1);
            i += 1;
        }
        proof {
            assert(counts32_model(self.host_calls@).subrange(0, n as int) =~= counts32_model(
                self.host_calls@,
            ));
        }
        total
    }
}

/// Adds `c` to the 32-bit counter labeled `name`, clamping at the
/// maximum; an absent label is appended.
pub open spec fn bump32(s: Seq<(Seq<char>, u32)>, name: Seq<char>, c: int) -> Seq<
    (Seq<char>, u32),
>
    decreases s.len(),
{
    if s.len() == 0 {
        seq![(name, clamp32(c))]
    } else if s[0].0 == name {
        seq![(s[0].0, clamp32(s[0].1 + c))] + s.drop_first()
    } else {
        seq![s[0]] + bump32(s.drop_first(), name, c)
    }
}

/// `bump32` updates in place at the first matching label.
pub proof fn lemma_bump32_found(s: Seq<(Seq<char>, u32)>, name: Seq<char>, c: int, i: int)
    requires
        0 <= i < s.len(),
        s[i].0 == name,
        forall|j: int| 0 <= j < i ==> s[j].0 != name,
    ensures
        bump32(s, name, c) == s.update(i, (s[i].0, clamp32(s[i].1 + c))),
    decreases s.len(),
{
    if i == 0 {
        assert(bump32(s, name, c) =~= s.update(0, (s[0].0, clamp32(s[0].1 + c))));
    } else {
        assert(forall|j: int| 0 <= j < i - 1 ==> s.drop_first()[j] == s[j + 1]);
        lemma_bump32_found(s.drop_first(), name, c, i - 1);
        assert(bump32(s, name, c) =~= s.update(i, (s[i].0, clamp32(s[i].1 + c))));
    }
}

/// `bump32` appends when no label matches.
pub proof fn lemma_bump32_absent(s: Seq<(Seq<char>, u32)>, name: Seq<char>, c: int)
    requires
        forall|j: int| 0 <= j < s.len() ==> s[j].0 != name,
    ensures
        bump32(s, name, c) == s.push((name, clamp32(c))),
    decreases s.len(),
{
    if s.len() == 0 {
        assert(bump32(s, name, c) =~= s.push((name, clamp32(c))));
    } else {
        assert(forall|j: int| 0 <= j < s.drop_first().len() ==> s.drop_first()[j] == s[j + 1]);
        lemma_bump32_absent(s.drop_first(), name, c);
        assert(bump32(s, name, c) =~= s.push((name, clamp32(c))));
    }
}

/// `bump64` updates in place at the first matching label.
pub proof fn lemma_bump64_found(s: Seq<(Seq<char>, u64)>, name: Seq<char>, c: int, i: int)
    requires
        0 <= i < s.len(),
        s[i].0 == name,
        forall|j: int| 0 <= j < i ==> s[j].0 != name,
    ensures
        bump64(s, name, c) == s.update(i, (s[i].0, clamp64(s[i].1 + c))),
    decreases s.len(),
{
    if i == 0 {
        assert(bump64(s, name, c) =~= s.update(0, (s[0].0, clamp64(s[0].1 + c))));
    } else {
        assert(forall|j: int| 0 <= j < i - 1 ==> s.drop_first()[j] == s[j + 1]);
        lemma_bump64_found(s.drop_first(), name, c, i - 1);
        assert(bump64(s, name, c) =~= s.update(i, (s[i].0, clamp64(s[i].1 + c))));
    }
}

/// `bump64` appends when no label matches.
pub proof fn lemma_bump64_absent(s: Seq<(Seq<char>, u64)>, name: Seq<char>, c: int)
    requires
        forall|j: int| 0 <= j < s.len() ==> s[j].0 != name,
    ensures
        bump64(s, name, c) == s.push((name, clamp64(c))),
    decreases s.len(),
{
    if s.len() == 0 {
        assert(bump64(s, name, c) =~= s.push((name, clamp64(c))));
    } else {
        assert(forall|j: int| 0 <= j < s.drop_first().len() ==> s.drop_first()[j] == s[j + 1]);
        lemma_bump64_absent(s.drop_first(), name, c);
        assert(bump64(s, name, c) =~= s.push((name, clamp64(c))));
    }
}

/// Runtime-wide statistics.
#[derive(Debug, Clone, Copy, PartialEq, Eq, Structural)]
pub struct RuntimeStats {
    /// Total handlers executed.
    pub total_executions: u64,
    /// Instances currently checked out.
    pub active_instances: usize,
    /// Instances idle in the pool.
    pub available_instances: usize,
    /// Executions served from the compilation cache.
    pub cache_hits: u64,
    /// Executions that compiled anew.
    pub cache_misses: u64,
    /// Average execution time in microseconds.
    pub avg_execution_time_us: u64,
    /// Total memory used by all instances.
    pub total_memory_bytes: u64,
}

impl Default for RuntimeStats {
    /// Statistics with every counter at zero.
    fn default() -> (r: RuntimeStats)
        ensures
            r == (RuntimeStats {
                total_executions: 0,
                active_instances: 0,
                available_instances: 0,
                cache_hits: 0,
                cache_misses: 0,
                avg_execution_time_us: 0,
                total_memory_bytes: 0,
            }),
    {
        RuntimeStats {
            total_executions: 0,
            active_instances: 0,
            available_instances: 0,
            cache_hits: 0,
            cache_misses: 0,
            avg_execution_time_us: 0,
            total_memory_bytes: 0,
        }
    }
}

/// Aggregator of runtime metrics across executions.
#[derive(Debug)]
pub struct MetricsCollector {
    /// Total executions recorded.
    pub total_executions: u64,
    /// Executions that succeeded.
    pub successful_executions: u64,
    /// Executions that failed.
    pub failed_executions: u64,
    /// Sum of execution durations in microseconds.
    pub total_execution_time_us: u64,
    /// Executions served from cache.
    pub cache_hits: u64,
    /// Executions that compiled anew.
    pub cache_misses: u64,
    /// Sum of memory used across executions.
    pub total_memory_used: u64,
    /// Highest peak memory seen.
    pub peak_memory: u64,
    /// Host function call counters by function name.
    pub host_calls: Vec<(String, u64)>,
    /// Error counters by error code name.
    pub error_counts: Vec<(String, u64)>,
}

impl MetricsCollector {
    /// Creates a collector with every counter at zero.
    pub fn new() -> (r: MetricsCollector)
        ensures
            r.total_executions == 0,
            r.successful_executions == 0,
            r.failed_executions == 0,
            r.total_execution_time_us == 0,
            r.cache_hits == 0,
            r.cache_misses == 0,
            r.total_memory_used == 0,
            r.peak_memory == 0,
            r.host_calls@.len() == 0,
            r.error_counts@.len() == 0,
    {
        MetricsCollector {
            total_executions: 0,
            successful_executions: 0,
            failed_executions: 0,
            total_execution_time_us: 0,
            cache_hits: 0,
            cache_misses: 0,
            total_memory_used: 0,
            peak_memory: 0,
            host_calls: Vec::new(),
            error_counts: Vec::new(),
        }
    }

    /// Records one execution's metrics, clamping sums at the maximum.
    pub fn record_execution(&mut self, metrics: &ExecutionMetrics, success: bool)
        ensures
            final(self).total_executions == clamp64(old(self).total_executions + 1),
            final(self).successful_executions == if success {
                clamp64(old(self).successful_executions + 1)
            } else {
                old(self).successful_executions
            },
            final(self).failed_executions == if success {
                old(self).failed_executions
            } else {
                clamp64(old(self).failed_executions + 1)
            },
            final(self).total_execution_time_us == clamp64(
                old(self).total_execution_time_us + metrics.duration_us,
            ),
            final(self).cache_hits == if metrics.cache_hit {
                clamp64(old(self).cache_hits + 1)
            } else {
                old(self).cache_hits
            },
            final(self).cache_misses == if metrics.cache_hit {
                old(self).cache_misses
            } else {
                clamp64(old(self).cache_misses + 1)
            },
            final(self).total_memory_used == clamp64(
                old(self).total_memory_used + metrics.memory_used_bytes,
            ),
            final(self).peak_memory == if metrics.memory_peak_bytes > old(self).peak_memory {
                metrics.memory_peak_bytes
            } else {
                old(self).peak_memory
            },
            counts64_model(final(self).host_calls@) == merge_counts(
                counts64_model(old(self).host_calls@),
                counts32_model(metrics.host_calls@),
            ),
            counts64_model(final(self).error_counts@) == counts64_model(
                old(self).error_counts@,
            ),
    {
        self.total_executions = self.total_executions.saturating_add(1);
        if success {
            self.successful_executions = self.successful_executions.saturating_add(1);
        } else {
            self.failed_executions = self.failed_executions.saturating_add(1);
        }
        self.total_execution_time_us = self.total_execution_time_us.saturating_add(
            metrics.duration_us,
        );
        if metrics.cache_hit {
            self.cache_hits = self.cache_hits.saturating_add(1);
        } else {
            self.cache_misses = self.cache_misses.saturating_add(1);
        }
        self.total_memory_used = self.total_memory_used.saturating_add(
            metrics.memory_used_bytes,
        );
        if metrics.memory_peak_bytes > self.peak_memory {
            self.peak_memory = metrics.memory_peak_bytes;
        }
        let n = metrics.host_calls.len();
        let ghost mid = *self;
        let ghost acc0 = counts64_model(self.host_calls@);
        let ghost es = counts32_model(metrics.host_calls@);
        let mut i: usize = 0;
        assert(counts64_model(self.host_calls@) =~= merge_counts(acc0, es.subrange(0, 0)));
        while i < n
            invariant
                i <= n,
                n == metrics.host_calls@.len(),
                es == counts32_model(metrics.host_calls@),
                self.total_executions == mid.total_executions,
                self.successful_executions == mid.successful_executions,
                self.failed_executions == mid.failed_executions,
                self.total_execution_time_us == mid.total_execution_time_us,
                self.cache_hits == mid.cache_hits,
                self.cache_misses == mid.cache_misses,
                self.total_memory_used == mid.total_memory_used,
                self.peak_memory == mid.peak_memory,
                self.error_counts@ == mid.error_counts@,
                counts64_model(self.host_calls@) == merge_counts(acc0, es.subrange(0, i as int)),
            decreases n - i,
        {
            let ghost sub1 = es.subrange(0, i + 1);
            proof {
                assert(sub1.drop_last() =~= es.subrange(0, i as int));
                assert(sub1.last() == es[i as int]);
            }
            let name = metrics.host_calls[i].0.clone();
            let count = metrics.host_calls[i].1;
            bump_counter(&mut self.host_calls, name, count as u64);
            i += 1;
        }
        proof {
            assert(es.subrange(0, n as int) =~= es);
        }
    }

    /// Records one error by its code name.
    pub fn record_error(&mut self, error_code: &str)
        ensures
            counts64_model(final(self).error_counts@) == bump64(
                counts64_model(old(self).error_counts@),
                error_code@,
                1,
            ),
            final(self).total_executions == old(self).total_executions,
            final(self).successful_executions == old(self).successful_executions,
            final(self).failed_executions == old(self).failed_executions,
            final(self).total_execution_time_us == old(self).total_execution_time_us,
            final(self).cache_hits == old(self).cache_hits,
            final(self).cache_misses == old(self).cache_misses,
            final(self).total_memory_used == old(self).total_memory_used,
            final(self).peak_memory == old(self).peak_memory,
            counts64_model(final(self).host_calls@) == counts64_model(old(self).host_calls@),
    {
        bump_counter(&mut self.error_counts, error_code.to_owned(), 1);
    }

    /// Total executions recorded.
    pub fn total_executions(&self) -> (r: u64)
        ensures
            r == self.total_executions,
    {
        self.total_executions
    }

    /// Executions that succeeded.
    pub fn successful_executions(&self) -> (r: u64)
        ensures
            r == self.successful_executions,
    {
        self.successful_executions
    }

    /// Executions that failed.
    pub fn failed_executions(&self) -> (r: u64)
        ensures
            r == self.failed_executions,
    {
        self.failed_executions
    }

    /// Cache hit rate in hundredths of a percent: hits scaled by ten
    /// thousand over all lookups, zero when nothing was recorded.
    pub fn cache_hit_rate_e4(&self) -> (r: u64)
        ensures
            r == spec_rate_e4(self.cache_hits as nat, self.cache_misses as nat),
    {
        let total: u128 = self.cache_hits as u128 + self.cache_misses as u128;
        if total == 0 {
            0
        } else {
            let hits128: u128 = self.cache_hits as u128;
            let scaled: u128 = hits128 * 10000;
            let rate: u128 = scaled / total;
            assert(rate <= 10000) by (nonlinear_arith)
                requires
                    0 < total,
                    scaled == hits128 * 10000,
                    rate == scaled / total,
                    hits128 <= total,
            ;
            rate as u64
        }
    }

    /// Average execution time in microseconds, zero when nothing was
    /// recorded.
    pub fn avg_execution_time_us(&self) -> (r: u64)
        ensures
            r == spec_avg(self.total_execution_time_us as nat, self.total_executions as nat),
    {
        if self.total_executions == 0 {
            0
        } else {
            self.total_execution_time_us / self.total_executions
        }
    }

    /// Highest peak memory seen.
    pub fn peak_memory(&self) -> (r: u64)
        ensures
            r == self.peak_memory,
    {
        self.peak_memory
    }

    /// Resets every counter to zero.
    pub fn reset(&mut self)
        ensures
            final(self).total_executions == 0,
            final(self).successful_executions == 0,
            final(self).failed_executions == 0,
            final(self).total_execution_time_us == 0,
            final(self).cache_hits == 0,
            final(self).cache_misses == 0,
            final(self).total_memory_used == 0,
            final(self).peak_memory == 0,
            final(self).host_calls@.len() == 0,
            final(self).error_counts@.len() == 0,
    {
        self.total_executions = 0;
        self.successful_executions = 0;
        self.failed_executions = 0;
        self.total_execution_time_us = 0;
        self.cache_hits = 0;
        self.cache_misses = 0;
        self.total_memory_used = 0;
        self.peak_memory = 0;
        self.host_calls.clear();
        self.error_counts.clear();
    }

    /// Exports the metrics in the line-oriented text format.
    pub fn to_prometheus(&self) -> (r: String)
        ensures
            r@ == spec_prometheus_text(
                self.successful_executions,
                self.failed_executions,
                spec_avg(self.total_execution_time_us as nat, self.total_executions as nat),
                spec_rate_e4(self.cache_hits as nat, self.cache_misses as nat),
                self.peak_memory,
                counts64_model(self.host_calls@),
                counts64_model(self.error_counts@),
            ),
    {
        let mut out = String::new();
        out.append("# HELP nexus_handler_executions_total Total handler executions\n");
        out.append("# TYPE nexus_handler_executions_total counter\n");
        out.append("nexus_handler_executions_total{status=\"success\"} ");
        out.append(u64_to_decimal(self.successful_executions).as_str());
        out.append("\n");
        out.append("nexus_handler_executions_total{status=\"error\"} ");
        out.append(u64_to_decimal(self.failed_executions).as_str());
        out.append("\n");
        out.append("\n# HELP nexus_handler_execution_time_us Average execution time\n");
        out.append("# TYPE nexus_handler_execution_time_us gauge\n");
        out.append("nexus_handler_execution_time_us ");
        out.append(u64_to_decimal(self.avg_execution_time_us()).as_str());
        out.append("\n");
        out.append("\n# HELP nexus_cache_hit_rate Compilation cache hit rate\n");
        out.append("# TYPE nexus_cache_hit_rate gauge\n");
        out.append("nexus_cache_hit_rate ");
        let rate = self.cache_hit_rate_e4();
        out.append(u64_to_decimal(rate / 10000).as_str());
        out.append(".");
        out.append(u64_to_decimal_zero_padded(rate % 10000, 4).as_str());
        out.append("\n");
        out.append("\n# HELP nexus_peak_memory_bytes Peak memory usage\n");
        out.append("# TYPE nexus_peak_memory_bytes gauge\n");
        out.append("nexus_peak_memory_bytes ");
        out.append(u64_to_decimal(self.peak_memory).as_str());
        out.append("\n");
        out.append("\n# HELP nexus_host_calls_total Host function calls\n");
        out.append("# TYPE nexus_host_calls_total counter\n");
        let n = self.host_calls.len();
        let mut i: usize = 0;
        let ghost head = out@;
        assert(out@ =~= head + spec_counter_lines(
            "nexus_host_calls_total{function=\""@,
            counts64_model(self.host_calls@).subrange(0, 0),
        ));
        while i < n
            invariant
                i <= n,
                n == self.host_calls@.len(),
                out@ == head + spec_counter_lines(
                    "nexus_host_calls_total{function=\""@,
                    counts64_model(self.host_calls@).subrange(0, i as int),
                ),
            decreases n - i,
        {
            let ghost sub1 = counts64_model(self.host_calls@).subrange(0, i + 1);
            proof {
                assert(sub1.drop_last() =~= counts64_model(self.host_calls@).subrange(
                    0,
                    i as int,
                ));
            }
            out.append("nexus_host_calls_total{function=\"");
            out.append(self.host_calls[i].0.as_str());
            out.append("\"} ");
            out.append(u64_to_decimal(self.host_calls[i].1).as_str());
            out.append("\n");
            proof {
                assert(out@ =~= head + spec_counter_lines(
                    "nexus_host_calls_total{function=\""@,
                    sub1,
                ));
            }
            i += 1;
        }
        proof {
            assert(counts64_model(self.host_calls@).subrange(0, n as int) =~= counts64_model(
                self.host_calls@,
            ));
        }
        out.append("\n# HELP nexus_errors_total Error counts by code\n");
        out.append("# TYPE nexus_errors_total counter\n");
        let en = self.error_counts.len();
        let mut i: usize = 0;
        let ghost head2 = out@;
        assert(out@ =~= head2 + spec_counter_lines(
            "nexus_errors_total{code=\""@,
            counts64_model(self.error_counts@).subrange(0, 0),
        ));
        while i < en
            invariant
                i <= en,
                en == self.error_counts@.len(),
                out@ == head2 + spec_counter_lines(
                    "nexus_errors_total{code=\""@,
                    counts64_model(self.error_counts@).subrange(0, i as int),
                ),
            decreases en - i,
        {
            let ghost sub1 = counts64_model(self.error_counts@).subrange(0, i + 1);
            proof {
                assert(sub1.drop_last() =~= counts64_model(self.error_counts@).subrange(
                    0,
                    i as int,
                ));
            }
            out.append("nexus_errors_total{code=\"");
            out.append(self.error_counts[i].0.as_str());
            out.append("\"} ");
            out.append(u64_to_decimal(self.error_counts[i].1).as_str());
            out.append("\n");
            proof {
                assert(out@ =~= head2 + spec_counter_lines(
                    "nexus_errors_total{code=\""@,
                    sub1,
                ));
            }
            i += 1;
        }
        proof {
            assert(counts64_model(self.error_counts@).subrange(0, en as int) =~= counts64_model(
                self.error_counts@,
            ));
            assert(out@ =~= spec_prometheus_text(
                self.successful_executions,
                self.failed_executions,
                spec_avg(self.total_execution_time_us as nat, self.total_executions as nat),
                spec_rate_e4(self.cache_hits as nat, self.cache_misses as nat),
                self.peak_memory,
                counts64_model(self.host_calls@),
                counts64_model(self.error_counts@),
            ));
        }
        out
    }
}

/// Merges one labeled count into a counter vector, clamping at the
/// maximum.
fn bump_counter(v: &mut Vec<(String, u64)>, name: String, count: u64)
    ensures
        counts64_model(final(v)@) == bump64(counts64_model(old(v)@), name@, count as int),
{
    let n = v.len();
    let mut i: usize = 0;
    while i < n
        invariant
            i <= n,
            n == v@.len(),
            v@ == old(v)@,
            forall|j: int| 0 <= j < i ==> counts64_model(v@)[j].0 != name@,
        decreases n - i,
    {
        if str_eq(v[i].0.as_str(), name.as_str()) {
            let ghost pre = counts64_model(v@);
            let entry = v.remove(i);
            let newc = entry.1.saturating_add(count);
            v.insert(i, (entry.0, newc));
            proof {
                lemma_bump64_found(pre, name@, count as int, i as int);
                assert(counts64_model(v@) =~= pre.update(
                    i as int,
                    (pre[i as int].0, clamp64(pre[i as int].1 + count)),
                ));
            }
            return ;
        }
        i += 1;
    }
    let ghost pre = counts64_model(v@);
    v.push((name, count));
    proof {
        lemma_bump64_absent(pre, name@, count as int);
        assert(counts64_model(v@) =~= pre.push((name@, clamp64(count as int))));
    }
}

/// Ten-thousandths rate of hits among all lookups.
pub open spec fn spec_rate_e4(hits: nat, misses: nat) -> nat {
    if hits + misses == 0 {
        0
    } else {
        hits * 10000 / (hits + misses)
    }
}

/// Integer average of a total over a count, zero for an empty count.
pub open spec fn spec_avg(total: nat, count: nat) -> nat {
    if count == 0 {
        0
    } else {
        total / count
    }
}

/// One line per labeled counter: the prefix, the label, `"} ` and the
/// count.
pub open spec fn spec_counter_lines(prefix: Seq<char>, entries: Seq<(Seq<char>, u64)>) -> Seq<
    char,
>
    decreases entries.len(),
{
    if entries.len() == 0 {
        Seq::empty()
    } else {
        spec_counter_lines(prefix, entries.drop_last()) + prefix + entries.last().0 + "\"} "@
            + spec_decimal(entries.last().1 as nat) + "\n"@
    }
}

/// The whole line-oriented metrics text.
pub open spec fn spec_prometheus_text(
    successes: u64,
    failures: u64,
    avg_us: nat,
    rate_e4: nat,
    peak: u64,
    host_calls: Seq<(Seq<char>, u64)>,
    error_counts: Seq<(Seq<char>, u64)>,
) -> Seq<char> {
    "# HELP nexus_handler_executions_total Total handler executions\n"@
        + "# TYPE nexus_handler_executions_total counter\n"@
        + "nexus_handler_executions_total{status=\"success\"} "@ + spec_decimal(successes as nat)
        + "\n"@ + "nexus_handler_executions_total{status=\"error\"} "@ + spec_decimal(
        failures as nat,
    ) + "\n"@ + "\n# HELP nexus_handler_execution_time_us Average execution time\n"@
        + "# TYPE nexus_handler_execution_time_us gauge\n"@ + "nexus_handler_execution_time_us "@
        + spec_decimal(avg_us) + "\n"@ + "\n# HELP nexus_cache_hit_rate Compilation cache hit rate\n"@
        + "# TYPE nexus_cache_hit_rate gauge\n"@ + "nexus_cache_hit_rate "@ + spec_decimal(
        rate_e4 / 10000,
    ) + "."@ + spec_zero_padded_decimal(rate_e4 % 10000, 4) + "\n"@
        + "\n# HELP nexus_peak_memory_bytes Peak memory usage\n"@
        + "# TYPE nexus_peak_memory_bytes gauge\n"@ + "nexus_peak_memory_bytes "@ + spec_decimal(
        peak as nat,
    ) + "\n"@ + "\n# HELP nexus_host_calls_total Host function calls\n"@
        + "# TYPE nexus_host_calls_total counter\n"@ + spec_counter_lines(
        "nexus_host_calls_total{function=\""@,
        host_calls,
    ) + "\n# HELP nexus_errors_total Error counts by code\n"@
        + "# TYPE nexus_errors_total counter\n"@ + spec_counter_lines(
        "nexus_errors_total{code=\""@,
        error_counts,
    )
}

/// Opaque monotonic timestamps from the system clock.
#[verifier::external_type_specification]
#[verifier::external_body]
pub struct ExInstant(std::time::Instant);

/// Relies on `Instant::now`: an opaque reading of the monotonic clock.
#[verifier::external_body]
fn instant_now() -> (r: std::time::Instant) {
    std::time::Instant::now()
}

/// Relies on `Instant::elapsed` and `Duration::as_micros`: microseconds
/// since the instant, as the monotonic clock reports them, truncated to
/// 64 bits.
#[verifier::external_body]
fn elapsed_micros(start: &std::time::Instant) -> (r: u64) {
    start.elapsed().as_micros() as u64
}

/// Timer measuring one execution, with an optional compilation phase.
pub struct ExecutionTimer {
    /// When the execution began.
    pub start: std::time::Instant,
    /// When the compilation phase began, while one is open.
    pub compilation_start: Option<std::time::Instant>,
    /// Length of the finished compilation phase in microseconds.
    pub compilation_duration_us: Option<u64>,
}

impl ExecutionTimer {
    /// Starts a timer.
    pub fn start() -> (r: ExecutionTimer)
        ensures
            r.compilation_open() == false,
            r.compilation_duration_us() is None,
    {
        ExecutionTimer {
            start: instant_now(),
            compilation_start: None,
            compilation_duration_us: None,
        }
    }

    /// Whether a compilation phase is open.
    pub open spec fn compilation_open(self) -> bool {
        self.compilation_start is Some
    }

    /// The recorded compilation duration so far.
    pub open spec fn compilation_duration_us(self) -> Option<u64> {
        self.compilation_duration_us
    }

    /// Opens the compilation phase.
    pub fn start_compilation(&mut self)
        ensures
            final(self).compilation_open(),
            final(self).compilation_duration_us() == old(self).compilation_duration_us(),
    {
        self.compilation_start = Some(instant_now());
    }

    /// Closes the compilation phase and records its duration; without
    /// an open phase nothing changes.
    pub fn stop_compilation(&mut self)
        ensures
            !final(self).compilation_open(),
            old(self).compilation_open() || final(self).compilation_duration_us() == old(
                self,
            ).compilation_duration_us(),
            !old(self).compilation_open() ==> final(self).compilation_open() == false,
    {
        match &self.compilation_start {
            Some(started) => {
                let us = elapsed_micros(started);
                self.compilation_duration_us = Some(us);
                self.compilation_start = None;
            },
            None => {
                self.compilation_start = None;
            },
        }
    }

    /// Microseconds since the timer started, as the clock reports them.
    pub fn elapsed_us(&self) -> u64 {
        elapsed_micros(&self.start)
    }

    /// Builds execution metrics from the timer: the elapsed duration,
    /// the cache flag and the recorded compilation time.
    pub fn into_metrics(self, cache_hit: bool) -> (r: ExecutionMetrics)
        ensures
            r.cache_hit == cache_hit,
            r.compilation_time_us == self.compilation_duration_us(),
            r.memory_used_bytes == 0,
            r.memory_peak_bytes == 0,
            r.host_calls@.len() == 0,
    {
        let duration_us = elapsed_micros(&self.start);
        let metrics = ExecutionMetrics::new().with_duration(duration_us).with_cache_hit(
            cache_hit,
        );
        match self.compilation_duration_us {
            Some(us) => metrics.with_compilation_time(us),
            None => metrics,
        }
    }
}

} // verus!
