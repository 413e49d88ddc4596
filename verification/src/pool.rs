//! The bounded instance pool: checked-out instances draw permits from
//! a fixed budget, idle instances wait in last-in-first-out order for
//! reuse, suspended instances are held in a registry keyed by their
//! suspension id until the matching resume, and shutdown terminates
//! everything and refuses further checkouts.

use vstd::prelude::*;

use crate::config::RuntimeConfig;
use crate::error::RuntimeError;
use crate::instance::InstanceState;
use crate::instance::WasmInstance;
use crate::text::str_eq;

verus! {

/// An instance checked out of the pool; the caller returns it with
/// `release`.
#[derive(Debug)]
pub struct PooledInstance {
    /// The checked-out instance.
    pub instance: WasmInstance,
}

impl PooledInstance {
    /// The held instance.
    pub fn inner(&self) -> (r: &WasmInstance)
        ensures
            r == &self.instance,
    {
        &self.instance
    }

    /// The held instance, mutably; callers may also use the public
    /// field directly, which the contracts speak of.
    pub fn inner_mut(&mut self) -> &mut WasmInstance {
        &mut self.instance
    }
}

/// The observable counters of a pool, for stating checkout laws.
pub struct PoolCounts {
    /// Instances checked out.
    pub active: int,
    /// Idle instances waiting for reuse.
    pub available: int,
    /// Suspended instances in the registry.
    pub suspended: int,
    /// Checkout permits remaining.
    pub permits: int,
    /// Whether the pool is shut down.
    pub shutdown: bool,
}

/// The suspended instance parked under a suspension id: the first
/// registry entry with that id, if any.
pub open spec fn find_parked(s: Seq<(String, WasmInstance, u64)>, id: Seq<char>) -> Option<
    WasmInstance,
>
    decreases s.len(),
{
    if s.len() == 0 {
        None
    } else if s[0].0@ == id {
        Some(s[0].1)
    } else {
        find_parked(s.drop_first(), id)
    }
}

/// The lookup at the first registry index holding an id.
proof fn lemma_find_parked_at(s: Seq<(String, WasmInstance, u64)>, id: Seq<char>, i: int)
    requires
        0 <= i < s.len(),
        s[i].0@ == id,
        forall|j: int| 0 <= j < i ==> s[j].0@ != id,
    ensures
        find_parked(s, id) == Some(s[i].1),
    decreases s.len(),
{
    if i == 0 {
    } else {
        assert(forall|j: int| 0 <= j < i - 1 ==> s.drop_first()[j] == s[j + 1]);
        lemma_find_parked_at(s.drop_first(), id, i - 1);
    }
}

/// The lookup when no registry index holds the id.
proof fn lemma_find_parked_absent(s: Seq<(String, WasmInstance, u64)>, id: Seq<char>)
    requires
        forall|j: int| 0 <= j < s.len() ==> s[j].0@ != id,
    ensures
        find_parked(s, id) is None,
    decreases s.len(),
{
    if s.len() > 0 {
        assert(forall|j: int| 0 <= j < s.drop_first().len() ==> s.drop_first()[j] == s[j + 1]);
        lemma_find_parked_absent(s.drop_first(), id);
    }
}

/// The bounded instance pool.
#[derive(Debug)]
pub struct InstancePool {
    /// The configuration the pool was built with.
    pub config: RuntimeConfig,
    /// Idle instances, reused last-in-first-out.
    pub available: Vec<WasmInstance>,
    /// Suspended instances by suspension id, with the wall-clock
    /// millisecond time they were parked.
    pub suspended: Vec<(String, WasmInstance, u64)>,
    /// Checkout permits remaining.
    pub permits: usize,
    /// Total instances ever created.
    pub instances_created: u64,
    /// Instances currently checked out.
    pub active_count: usize,
    /// Total memory attributed to checked-out instances.
    pub total_memory: u64,
    /// Whether the pool is shut down.
    pub shutdown: bool,
}

impl InstancePool {
    /// The per-invocation limits the pool's configuration implies;
    /// every instance the pool hands out carries them.
    pub open spec fn config_limits(self) -> crate::config::ResourceLimits {
        crate::config::ResourceLimits {
            timeout_ms: self.config.timeout_ms,
            memory_limit_bytes: self.config.memory_limit_bytes,
            stack_size_bytes: self.config.stack_size_bytes,
            max_host_calls: self.config.max_host_calls,
            max_state_mutations: self.config.max_state_mutations,
            max_events: self.config.max_events,
        }
    }

    /// The pool's observable counters.
    pub open spec fn counts(self) -> PoolCounts {
        PoolCounts {
            active: self.active_count as int,
            available: self.available@.len() as int,
            suspended: self.suspended@.len() as int,
            permits: self.permits as int,
            shutdown: self.shutdown,
        }
    }

    /// Well-formed pools: idle instances wait in the deque, suspended
    /// ones sit in the registry under their own suspension id, and
    /// every checked-out or suspended instance holds one permit of the
    /// fixed budget.
    pub open spec fn wf(self) -> bool {
        &&& forall|i: int|
            0 <= i < self.available@.len() ==> (#[trigger] self.available@[i]).state
                == InstanceState::Idle && self.available@[i].wf()
                && self.available@[i].limits == self.config_limits()
        &&& forall|i: int|
            0 <= i < self.suspended@.len() ==> (#[trigger] self.suspended@[i]).1.state
                == InstanceState::Suspended && self.suspended@[i].1.wf() && (
            match self.suspended@[i].1.suspension_id {
                Some(id) => id@ == self.suspended@[i].0@,
                None => false,
            }) && self.suspended@[i].1.limits == self.config_limits()
        &&& self.permits + self.active_count + self.suspended@.len()
            <= self.config.max_instances
    }

    /// Creates a pool with the full permit budget and `min_instances`
    /// pre-warmed idle instances.
    pub fn new(config: &RuntimeConfig) -> (r: Result<InstancePool, RuntimeError>)
        ensures
            match r {
                Ok(p) => p.wf() && !p.shutdown && p.permits == config.max_instances
                    && p.active_count == 0 && p.suspended@.len() == 0 && p.available@.len()
                    == config.min_instances && p.instances_created == config.min_instances
                    && p.config.max_instances == config.max_instances
                    && p.config.min_instances == config.min_instances
                    && p.config_limits() == (crate::config::ResourceLimits {
                    timeout_ms: config.timeout_ms,
                    memory_limit_bytes: config.memory_limit_bytes,
                    stack_size_bytes: config.stack_size_bytes,
                    max_host_calls: config.max_host_calls,
                    max_state_mutations: config.max_state_mutations,
                    max_events: config.max_events,
                }),
                Err(_) => false,
            },
    {
        let mut available: Vec<WasmInstance> = Vec::new();
        let mut created: u64 = 0;
        let min = config.min_instances;
        let mut i: usize = 0;
        while i < min
            invariant
                i <= min,
                available@.len() == i,
                created == i,
                forall|j: int|
                    0 <= j < i ==> (#[trigger] available@[j]).state == InstanceState::Idle
                        && available@[j].wf() && available@[j].limits == (
                    crate::config::ResourceLimits {
                        timeout_ms: config.timeout_ms,
                        memory_limit_bytes: config.memory_limit_bytes,
                        stack_size_bytes: config.stack_size_bytes,
                        max_host_calls: config.max_host_calls,
                        max_state_mutations: config.max_state_mutations,
                        max_events: config.max_events,
                    }),
            decreases min - i,
        {
            match WasmInstance::new(config) {
                Ok(inst) => {
                    available.push(inst);
                    created = created + 1;
                },
                Err(_) => {
                    proof {
                        assert(false);
                    }
                },
            }
            i += 1;
        }
        Ok(
            InstancePool {
                config: config.clone(),
                available,
                suspended: Vec::new(),
                permits: config.max_instances,
                instances_created: created,
                active_count: 0,
                total_memory: 0,
                shutdown: false,
            },
        )
    }

    /// Checks an instance out of the pool.  After shutdown every
    /// checkout fails; without a free permit the caller must wait and
    /// retry; otherwise the most recently released idle instance, or a
    /// fresh one, is reset and handed out against one permit.
    pub fn acquire(&mut self) -> (r: Result<PooledInstance, RuntimeError>)
        requires
            old(self).wf(),
            old(self).active_count < usize::MAX,
        ensures
            final(self).wf(),
            final(self).config == old(self).config,
            final(self).shutdown == old(self).shutdown,
            old(self).shutdown ==> r is Err && *final(self) == *old(self),
            !old(self).shutdown && old(self).permits == 0 ==> r is Err && *final(self) == *old(
                self,
            ),
            !old(self).shutdown && old(self).permits > 0 ==> match r {
                Ok(p) => {
                    &&& p.instance.state == InstanceState::Idle
                    &&& p.instance.wf()
                    &&& p.instance.limits == old(self).config_limits()
                    &&& final(self).counts().active == old(self).counts().active + 1
                    &&& final(self).counts().permits == old(self).counts().permits - 1
                    &&& final(self).counts().available == (if old(self).counts().available > 0 {
                        old(self).counts().available - 1
                    } else {
                        0
                    })
                    &&& final(self).counts().suspended == old(self).counts().suspended
                },
                Err(_) => false,
            },
    {
        if self.shutdown {
            return Err(RuntimeError::Shutdown("Pool is shut down".to_owned()));
        }
        if self.permits == 0 {
            return Err(RuntimeError::Pool("No instance permit is available".to_owned()));
        }
        let mut instance = match self.available.pop() {
            Some(inst) => inst,
            None => {
                match WasmInstance::new(&self.config) {
                    Ok(inst) => {
                        self.instances_created = self.instances_created.saturating_add(1);
                        inst
                    },
                    Err(_) => {
                        proof {
                            assert(false);
                        }
                        return Err(RuntimeError::Pool("instance creation failed".to_owned()));
                    },
                }
            },
        };
        match instance.reset() {
            Ok(_) => {},
            Err(_) => {
                proof {
                    assert(false);
                }
            },
        }
        self.permits = self.permits - 1;
        self.active_count = self.active_count + 1;
        self.total_memory = self.total_memory.saturating_add(instance.memory_used);
        Ok(PooledInstance { instance })
    }

    /// Returns a checked-out instance.  An idle instance rejoins the
    /// deque and frees its permit; a suspended one is parked in the
    /// registry under its suspension id and keeps its permit; an
    /// executing one is an aborted run and is terminated; a
    /// terminated one is dropped.
    pub fn release(&mut self, pooled: PooledInstance)
        requires
            old(self).wf(),
            pooled.instance.wf(),
            pooled.instance.limits == old(self).config_limits(),
            old(self).active_count > 0,
        ensures
            final(self).wf(),
            final(self).config == old(self).config,
            final(self).shutdown == old(self).shutdown,
            final(self).counts().active == old(self).counts().active - 1,
            pooled.instance.state == InstanceState::Idle ==> final(self).counts().permits
                == old(self).counts().permits + 1 && final(self).counts().available == old(
                self,
            ).counts().available + 1 && final(self).counts().suspended == old(
                self,
            ).counts().suspended,
            pooled.instance.state == InstanceState::Suspended ==> final(self).counts().permits
                == old(self).counts().permits && final(self).counts().available == old(
                self,
            ).counts().available && final(self).counts().suspended == old(
                self,
            ).counts().suspended + 1,
            pooled.instance.state == InstanceState::Executing || pooled.instance.state
                == InstanceState::Terminated ==> final(self).counts().permits == old(
                self,
            ).counts().permits + 1 && final(self).counts().available == old(
                self,
            ).counts().available && final(self).counts().suspended == old(
                self,
            ).counts().suspended,
    {
        self.active_count = self.active_count - 1;
        self.total_memory = self.total_memory.saturating_sub(pooled.instance.memory_used);
        let mut instance = pooled.instance;
        match instance.state() {
            InstanceState::Idle => {
                self.permits = self.permits + 1;
                match instance.reset() {
                    Ok(_) => {
                        self.available.push(instance);
                    },
                    Err(_) => {
                        proof {
                            assert(false);
                        }
                    },
                }
            },
            InstanceState::Suspended => {
                let id = match instance.suspension_id() {
                    Some(id) => id.to_owned(),
                    None => {
                        proof {
                            assert(false);
                        }
                        "".to_owned()
                    },
                };
                let parked_at = crate::host::wall_clock_millis();
                self.suspended.push((id, instance, parked_at));
            },
            InstanceState::Executing => {
                self.permits = self.permits + 1;
                instance.terminate();
            },
            InstanceState::Terminated => {
                self.permits = self.permits + 1;
            },
        }
    }

    /// Removes and returns the suspended instance parked under a
    /// suspension id, counting it as checked out again; its permit was
    /// never released.  An unknown id yields nothing and changes
    /// nothing.
    pub fn get_suspended(&mut self, suspension_id: &str) -> (r: Option<PooledInstance>)
        requires
            old(self).wf(),
            old(self).active_count < usize::MAX,
        ensures
            final(self).wf(),
            final(self).config == old(self).config,
            final(self).shutdown == old(self).shutdown,
            match (r, find_parked(old(self).suspended@, suspension_id@)) {
                (Some(p), Some(inst)) => {
                    &&& p.instance == inst
                    &&& p.instance.state == InstanceState::Suspended
                    &&& p.instance.wf()
                    &&& p.instance.limits == old(self).config_limits()
                    &&& (match p.instance.suspension_id {
                        Some(id) => id@ == suspension_id@,
                        None => false,
                    })
                    &&& final(self).counts().active == old(self).counts().active + 1
                    &&& final(self).counts().suspended == old(self).counts().suspended - 1
                    &&& final(self).counts().permits == old(self).counts().permits
                    &&& final(self).counts().available == old(self).counts().available
                },
                (None, None) => *final(self) == *old(self),
                _ => false,
            },
    {
        let n = self.suspended.len();
        let mut i: usize = 0;
        while i < n
            invariant
                i <= n,
                n == self.suspended@.len(),
                self.wf(),
                *self == *old(self),
                old(self).active_count < usize::MAX,
                forall|j: int| 0 <= j < i ==> self.suspended@[j].0@ != suspension_id@,
            decreases n - i,
        {
            if str_eq(self.suspended[i].0.as_str(), suspension_id) {
                proof {
                    lemma_find_parked_at(self.suspended@, suspension_id@, i as int);
                }
                let entry = self.suspended.remove(i);
                self.active_count = self.active_count + 1;
                self.total_memory = self.total_memory.saturating_add(entry.1.memory_used);
                return Some(PooledInstance { instance: entry.1 });
            }
            i += 1;
        }
        proof {
            lemma_find_parked_absent(self.suspended@, suspension_id@);
        }
        None
    }

    /// Instances currently checked out.
    pub fn active_count(&self) -> (r: usize)
        ensures
            r == self.active_count,
    {
        self.active_count
    }

    /// Idle instances waiting in the pool.
    pub fn available_count(&self) -> (r: usize)
        ensures
            r == self.available@.len(),
    {
        self.available.len()
    }

    /// Suspended instances parked in the registry.
    pub fn suspended_count(&self) -> (r: usize)
        ensures
            r == self.suspended@.len(),
    {
        self.suspended.len()
    }

    /// Total memory attributed to checked-out instances.
    pub fn total_memory(&self) -> (r: u64)
        ensures
            r == self.total_memory,
    {
        self.total_memory
    }

    /// Total instances ever created.
    pub fn instances_created(&self) -> (r: u64)
        ensures
            r == self.instances_created,
    {
        self.instances_created
    }

    /// Shuts the pool down: every idle and suspended instance is
    /// terminated and dropped, and every further checkout fails.
    pub fn shutdown(&mut self)
        requires
            old(self).wf(),
        ensures
            final(self).wf(),
            final(self).config == old(self).config,
            final(self).shutdown,
            final(self).available@.len() == 0,
            final(self).suspended@.len() == 0,
    {
        self.shutdown = true;
        loop
            invariant
                self.shutdown,
                self.config == old(self).config,
                self.permits + self.active_count + self.suspended@.len()
                    <= self.config.max_instances,
            ensures
                self.shutdown,
                self.config == old(self).config,
                self.available@.len() == 0,
                self.permits + self.active_count + self.suspended@.len()
                    <= self.config.max_instances,
            decreases self.available@.len(),
        {
            match self.available.pop() {
                Some(mut inst) => {
                    inst.terminate();
                },
                None => {
                    break ;
                },
            }
        }
        loop
            invariant
                self.shutdown,
                self.config == old(self).config,
                self.available@.len() == 0,
                self.permits + self.active_count + self.suspended@.len()
                    <= self.config.max_instances,
            ensures
                self.shutdown,
                self.config == old(self).config,
                self.available@.len() == 0,
                self.suspended@.len() == 0,
                self.permits + self.active_count <= self.config.max_instances,
            decreases self.suspended@.len(),
        {
            match self.suspended.pop() {
                Some(entry) => {
                    let mut inst = entry.1;
                    inst.terminate();
                },
                None => {
                    break ;
                },
            }
        }
    }

    /// Terminates and drops every suspended instance parked longer
    /// than `max_age_ms` milliseconds, judged against the wall clock.
    pub fn cleanup_stale(&mut self, max_age_ms: u64)
        requires
            old(self).wf(),
        ensures
            final(self).wf(),
            final(self).config == old(self).config,
            final(self).shutdown == old(self).shutdown,
            final(self).suspended@.len() <= old(self).suspended@.len(),
            final(self).counts().active == old(self).counts().active,
            final(self).counts().available == old(self).counts().available,
    {
        let now = crate::host::wall_clock_millis();
        let mut kept: Vec<(String, WasmInstance, u64)> = Vec::new();
        loop
            invariant
                self.wf(),
                self.shutdown == old(self).shutdown,
                self.active_count == old(self).active_count,
                self.available@ == old(self).available@,
                self.permits == old(self).permits,
                kept@.len() + self.suspended@.len() <= old(self).suspended@.len(),
                self.permits == old(self).permits,
                self.config == old(self).config,
                forall|i: int|
                    0 <= i < kept@.len() ==> (#[trigger] kept@[i]).1.state
                        == InstanceState::Suspended && kept@[i].1.wf() && (
                    match kept@[i].1.suspension_id {
                        Some(id) => id@ == kept@[i].0@,
                        None => false,
                    }) && kept@[i].1.limits == self.config_limits(),
            ensures
                self.wf(),
                self.shutdown == old(self).shutdown,
                self.active_count == old(self).active_count,
                self.available@ == old(self).available@,
                kept@.len() + self.suspended@.len() <= old(self).suspended@.len(),
                self.permits == old(self).permits,
                self.config == old(self).config,
                self.suspended@.len() == 0,
                forall|i: int|
                    0 <= i < kept@.len() ==> (#[trigger] kept@[i]).1.state
                        == InstanceState::Suspended && kept@[i].1.wf() && (
                    match kept@[i].1.suspension_id {
                        Some(id) => id@ == kept@[i].0@,
                        None => false,
                    }) && kept@[i].1.limits == self.config_limits(),
            decreases self.suspended@.len(),
        {
            let ghost pre = self.suspended@;
            match self.suspended.pop() {
                Some(entry) => {
                    proof {
                        assert(self.suspended@ =~= pre.drop_last());
                        assert(forall|i: int|
                            0 <= i < self.suspended@.len() ==> self.suspended@[i] == pre[i]);
                    }
                    let age = if now >= entry.2 {
                        now - entry.2
                    } else {
                        0
                    };
                    if age > max_age_ms {
                        let mut inst = entry.1;
                        inst.terminate();
                    } else {
                        kept.push(entry);
                    }
                },
                None => {
                    break ;
                },
            }
        }
        loop
            invariant
                self.wf(),
                self.shutdown == old(self).shutdown,
                self.active_count == old(self).active_count,
                self.available@ == old(self).available@,
                kept@.len() + self.suspended@.len() <= old(self).suspended@.len(),
                self.permits == old(self).permits,
                self.config == old(self).config,
                self.permits + self.active_count + self.suspended@.len() + kept@.len()
                    <= self.config.max_instances,
                forall|i: int|
                    0 <= i < kept@.len() ==> (#[trigger] kept@[i]).1.state
                        == InstanceState::Suspended && kept@[i].1.wf() && (
                    match kept@[i].1.suspension_id {
                        Some(id) => id@ == kept@[i].0@,
                        None => false,
                    }) && kept@[i].1.limits == self.config_limits(),
            ensures
                self.wf(),
                self.shutdown == old(self).shutdown,
                self.active_count == old(self).active_count,
                self.available@ == old(self).available@,
                kept@.len() + self.suspended@.len() <= old(self).suspended@.len(),
            decreases kept@.len(),
        {
            let ghost pre_s = self.suspended@;
            let ghost pre_k = kept@;
            match kept.pop() {
                Some(entry) => {
                    self.suspended.push(entry);
                    proof {
                        assert(entry == pre_k[pre_k.len() - 1]);
                        assert(self.suspended@ =~= pre_s.push(entry));
                        assert(forall|i: int|
                            0 <= i < pre_s.len() ==> self.suspended@[i] == pre_s[i]);
                        assert(self.suspended@[self.suspended@.len() - 1] == entry);
                    }
                },
                None => {
                    break ;
                },
            }
        }
    }
}

/// A successful checkout and an idle release cancel out: the active
/// count is back where it began and the idle deque has not shrunk.
pub proof fn lemma_acquire_release_net(c0: PoolCounts, c1: PoolCounts, c2: PoolCounts)
    requires
        c1.active == c0.active + 1,
        c1.permits == c0.permits - 1,
        c1.available >= c0.available - 1,
        c2.active == c1.active - 1,
        c2.permits == c1.permits + 1,
        c2.available == c1.available + 1,
    ensures
        c2.active == c0.active,
        c2.available >= c0.available,
        c2.permits == c0.permits,
{
}

} // verus!
