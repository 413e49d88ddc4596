//! A single guest instance: its lifecycle state machine and the
//! execution of one handler invocation against it.
//!
//! The guest engine itself is a collaborator outside this crate; what
//! it did during a run segment is handed in as a `GuestScript`: the
//! ordered host calls the handler made, and how the guest finished.
//! Running a script against an execution context performs exactly the
//! capability checking, budgeting and effect recording of the host
//! surface.

use vstd::prelude::*;

use crate::config::ResourceLimits;
use crate::config::RuntimeConfig;
use crate::context::ExecutionContext;
use crate::context::ExecutionStatus;
use crate::context::EmittedEvent;
use crate::context::StateMutation;
use crate::context::SuspensionDetails;
use crate::context::ViewCommand;
use crate::error::WasmError;
use crate::host;
use crate::value::RuntimeValue;
use crate::value::ValueMap;
use crate::value::arr_model;

verus! {

/// One host call a handler made during its run.
#[derive(Debug)]
pub enum HostOp {
    /// Read a state key.
    StateGet(String),
    /// Set a state key to a value.
    StateSet(String, RuntimeValue),
    /// Delete a state key.
    StateDelete(String),
    /// Test a state key.
    StateHas(String),
    /// List the state keys.
    StateKeys,
    /// Emit an event.
    EmitEvent(String, RuntimeValue),
    /// Set a filter on a view component.
    ViewSetFilter(String, RuntimeValue),
    /// Scroll a view component.
    ViewScrollTo(String, RuntimeValue),
    /// Focus a view component.
    ViewFocus(String),
    /// Send a custom view command.
    ViewCustom(Option<String>, ValueMap),
    /// Await an extension call, entering suspension.
    ExtCall(String, String, Vec<RuntimeValue>),
    /// Write a log line.
    Log(i32, String),
    /// Read the wall clock.
    Now,
}

/// How the guest finished after its host calls.
#[derive(Debug)]
pub enum GuestOutcome {
    /// The handler returned, possibly with a value.
    Complete(Option<RuntimeValue>),
    /// The guest raised a runtime condition.
    Fail(WasmError),
    /// The wall clock expired and the run was aborted.
    TimedOut,
}

/// What the guest did during one run segment: its host calls in call
/// order, then how it finished.
#[derive(Debug)]
pub struct GuestScript {
    /// Host calls, in call order.
    pub ops: Vec<HostOp>,
    /// How the guest finished, when no host call ended the run first.
    pub outcome: GuestOutcome,
}

impl GuestScript {
    /// A script with no host calls that completes with a value.
    pub fn completing(value: Option<RuntimeValue>) -> (r: GuestScript)
        ensures
            r.ops@.len() == 0,
            r.outcome is Complete,
            match (r.outcome, value) {
                (GuestOutcome::Complete(Some(a)), Some(b)) => a == b,
                (GuestOutcome::Complete(None), None) => true,
                _ => false,
            },
    {
        GuestScript { ops: Vec::new(), outcome: GuestOutcome::Complete(value) }
    }
}

/// How a run segment ended.
pub enum GuestRunStatus {
    /// Every host call ran; the guest's own outcome stands.
    Completed,
    /// A host call entered suspension and the guest unwound.
    Suspended,
    /// The host-call budget was exhausted.
    BudgetExhausted,
    /// A host call was refused and the guest aborted with the error.
    Failed(WasmError),
}

fn clamp_usize_u32(n: usize) -> (r: u32)
    ensures
        n <= u32::MAX ==> r == n,
        n > u32::MAX ==> r == u32::MAX,
{
    if n > u32::MAX as usize {
        u32::MAX
    } else {
        n as u32
    }
}

/// Copies a vector of values, keeping the models.
pub fn clone_values(v: &Vec<RuntimeValue>) -> (r: Vec<RuntimeValue>)
    ensures
        arr_model(r@) == arr_model(v@),
{
    let n = v.len();
    let mut out: Vec<RuntimeValue> = Vec::new();
    let mut i: usize = 0;
    while i < n
        invariant
            i <= n,
            n == v@.len(),
            out@.len() == i,
            forall|j: int| 0 <= j < i ==> out@[j].model() == v@[j].model(),
        decreases n - i,
    {
        out.push(v[i].clone());
        i += 1;
    }
    proof {
        assert(arr_model(out@) =~= arr_model(v@));
    }
    out
}

/// Copies a mutation vector, keeping the models.
pub fn clone_mutations(v: &Vec<StateMutation>) -> (r: Vec<StateMutation>)
    ensures
        crate::context::mutations_model(r@) == crate::context::mutations_model(v@),
{
    let n = v.len();
    let mut out: Vec<StateMutation> = Vec::new();
    let mut i: usize = 0;
    while i < n
        invariant
            i <= n,
            n == v@.len(),
            out@.len() == i,
            forall|j: int| 0 <= j < i ==> out@[j].model() == v@[j].model(),
        decreases n - i,
    {
        out.push(v[i].clone());
        i += 1;
    }
    proof {
        assert(crate::context::mutations_model(out@) =~= crate::context::mutations_model(v@));
    }
    out
}

/// Copies an event vector, keeping the models.
pub fn clone_events(v: &Vec<EmittedEvent>) -> (r: Vec<EmittedEvent>)
    ensures
        crate::context::events_model(r@) == crate::context::events_model(v@),
{
    let n = v.len();
    let mut out: Vec<EmittedEvent> = Vec::new();
    let mut i: usize = 0;
    while i < n
        invariant
            i <= n,
            n == v@.len(),
            out@.len() == i,
            forall|j: int| 0 <= j < i ==> out@[j].model() == v@[j].model(),
        decreases n - i,
    {
        out.push(v[i].clone());
        i += 1;
    }
    proof {
        assert(crate::context::events_model(out@) =~= crate::context::events_model(v@));
    }
    out
}

/// Copies a view-command vector, keeping the models.
pub fn clone_commands(v: &Vec<ViewCommand>) -> (r: Vec<ViewCommand>)
    ensures
        crate::context::commands_model(r@) == crate::context::commands_model(v@),
{
    let n = v.len();
    let mut out: Vec<ViewCommand> = Vec::new();
    let mut i: usize = 0;
    while i < n
        invariant
            i <= n,
            n == v@.len(),
            out@.len() == i,
            forall|j: int| 0 <= j < i ==> out@[j].model() == v@[j].model(),
        decreases n - i,
    {
        out.push(v[i].clone());
        i += 1;
    }
    proof {
        assert(crate::context::commands_model(out@) =~= crate::context::commands_model(v@));
    }
    out
}

/// How a modeled run has ended so far.
pub enum RunStatusModel {
    /// Every call so far ran; the run may continue.
    Completed,
    /// A call entered suspension and the guest unwound.
    Suspended,
    /// The host-call budget was exhausted.
    BudgetExhausted,
    /// A call was refused and the guest aborted with the error.
    Failed(crate::error::ErrModel),
}

/// The modeled accumulator state of one run: what the replayed host
/// calls have recorded, the call count, the pending suspension record
/// (its random id left out), and how the run has ended.
#[verifier::ext_equal]
pub struct RunModelState {
    /// Recorded mutations, in call order.
    pub mutations: Seq<crate::context::MutationModel>,
    /// Recorded events, in call order.
    pub events: Seq<crate::context::EventModel>,
    /// Recorded view commands, in call order.
    pub commands: Seq<crate::context::ViewCommandModel>,
    /// Recorded log lines, in call order.
    pub logs: Seq<(crate::context::LogLevel, Seq<char>)>,
    /// Host calls made.
    pub host_calls: u32,
    /// The pending suspension: extension, method, arguments.
    pub suspension: Option<(Seq<char>, Seq<char>, Seq<ValModel>)>,
    /// How the run has ended, if it has.
    pub status: RunStatusModel,
}

use crate::value::ValModel;

/// A length clamped to the `u32` range, as the budget checks see it.
pub open spec fn spec_clamp_u32(n: nat) -> u32 {
    if n > u32::MAX {
        u32::MAX
    } else {
        n as u32
    }
}

/// The permission-denied error a refused host call aborts with.
pub open spec fn perm_err(capability: Seq<char>, operation: Seq<char>) -> crate::error::ErrModel {
    crate::error::ErrModel {
        code: crate::error::ErrorCode::PermissionDenied,
        message: crate::error::spec_permission_denied_message(capability, operation),
        stack: None,
        location: None,
        snippet: None,
    }
}

/// The resource-limit error an exhausted budget aborts with.
pub open spec fn reslim_err(resource: Seq<char>, limit: u32, used: u32) -> crate::error::ErrModel {
    crate::error::ErrModel {
        code: crate::error::ErrorCode::ResourceLimit,
        message: crate::error::spec_resource_limit_message(resource, limit as nat, used as nat),
        stack: None,
        location: None,
        snippet: None,
    }
}

/// One step of the modeled run: the host call is counted against the
/// budget, checked against the grants and per-invocation limits, and
/// records its effect; an ended run absorbs every further step.
pub open spec fn guest_step(
    caps: Seq<crate::capability::CapModel>,
    reg: Seq<(Seq<char>, Seq<Seq<char>>)>,
    limits: ResourceLimits,
    st: RunModelState,
    op: HostOp,
) -> RunModelState {
    if !(st.status is Completed) {
        st
    } else if st.host_calls >= limits.max_host_calls {
        RunModelState { status: RunStatusModel::BudgetExhausted, ..st }
    } else {
        let st1 = RunModelState { host_calls: (st.host_calls + 1) as u32, ..st };
        match op {
            HostOp::StateGet(key) => {
                if host::caps_allow_state_read(caps, key@) {
                    st1
                } else {
                    RunModelState {
                        status: RunStatusModel::Failed(
                            perm_err("state:read:"@ + key@, "state_get"@),
                        ),
                        ..st1
                    }
                }
            },
            HostOp::StateSet(key, value) => {
                if spec_clamp_u32(st1.mutations.len()) >= limits.max_state_mutations {
                    RunModelState {
                        status: RunStatusModel::Failed(
                            reslim_err(
                                "state_mutations"@,
                                limits.max_state_mutations,
                                spec_clamp_u32(st1.mutations.len()),
                            ),
                        ),
                        ..st1
                    }
                } else if !host::caps_allow_state_write(caps, key@) {
                    RunModelState {
                        status: RunStatusModel::Failed(
                            perm_err("state:write:"@ + key@, "state_set"@),
                        ),
                        ..st1
                    }
                } else {
                    RunModelState {
                        mutations: st1.mutations.push(
                            crate::context::MutationModel {
                                key: key@,
                                value: value.model(),
                                operation: crate::context::MutationOperation::Assign,
                            },
                        ),
                        ..st1
                    }
                }
            },
            HostOp::StateDelete(key) => {
                if spec_clamp_u32(st1.mutations.len()) >= limits.max_state_mutations {
                    RunModelState {
                        status: RunStatusModel::Failed(
                            reslim_err(
                                "state_mutations"@,
                                limits.max_state_mutations,
                                spec_clamp_u32(st1.mutations.len()),
                            ),
                        ),
                        ..st1
                    }
                } else if !host::caps_allow_state_write(caps, key@) {
                    RunModelState {
                        status: RunStatusModel::Failed(
                            perm_err("state:write:"@ + key@, "state_delete"@),
                        ),
                        ..st1
                    }
                } else {
                    RunModelState {
                        mutations: st1.mutations.push(
                            crate::context::MutationModel {
                                key: key@,
                                value: ValModel::Null,
                                operation: crate::context::MutationOperation::Delete,
                            },
                        ),
                        ..st1
                    }
                }
            },
            HostOp::StateHas(key) => {
                if host::caps_allow_state_read(caps, key@) {
                    st1
                } else {
                    RunModelState {
                        status: RunStatusModel::Failed(
                            perm_err("state:read:"@ + key@, "state_has"@),
                        ),
                        ..st1
                    }
                }
            },
            HostOp::StateKeys => {
                if crate::capability::spec_check(caps, "state:read:*"@) {
                    st1
                } else {
                    RunModelState {
                        status: RunStatusModel::Failed(
                            perm_err("state:read:*"@, "state_keys"@),
                        ),
                        ..st1
                    }
                }
            },
            HostOp::EmitEvent(name, payload) => {
                if spec_clamp_u32(st1.events.len()) >= limits.max_events {
                    RunModelState {
                        status: RunStatusModel::Failed(
                            reslim_err(
                                "events"@,
                                limits.max_events,
                                spec_clamp_u32(st1.events.len()),
                            ),
                        ),
                        ..st1
                    }
                } else if !host::caps_allow_emit(caps, name@) {
                    RunModelState {
                        status: RunStatusModel::Failed(
                            perm_err("events:emit:"@ + name@, "emit_event"@),
                        ),
                        ..st1
                    }
                } else {
                    RunModelState {
                        events: st1.events.push(
                            crate::context::EventModel { name: name@, payload: payload.model() },
                        ),
                        ..st1
                    }
                }
            },
            HostOp::ViewSetFilter(id, value) => {
                if host::caps_allow_view(caps, Some(id@)) {
                    RunModelState {
                        commands: st1.commands.push(
                            crate::context::ViewCommandModel {
                                command_type: crate::context::ViewCommandType::SetFilter,
                                component_id: Some(id@),
                                args: Seq::<(Seq<char>, ValModel)>::empty().push(
                                    ("value"@, value.model()),
                                ),
                            },
                        ),
                        ..st1
                    }
                } else {
                    RunModelState {
                        status: RunStatusModel::Failed(
                            perm_err("view:update:"@ + id@, "view_set_filter"@),
                        ),
                        ..st1
                    }
                }
            },
            HostOp::ViewScrollTo(id, position) => {
                if host::caps_allow_view(caps, Some(id@)) {
                    RunModelState {
                        commands: st1.commands.push(
                            crate::context::ViewCommandModel {
                                command_type: crate::context::ViewCommandType::ScrollTo,
                                component_id: Some(id@),
                                args: Seq::<(Seq<char>, ValModel)>::empty().push(
                                    ("position"@, position.model()),
                                ),
                            },
                        ),
                        ..st1
                    }
                } else {
                    RunModelState {
                        status: RunStatusModel::Failed(
                            perm_err("view:update:"@ + id@, "view_scroll_to"@),
                        ),
                        ..st1
                    }
                }
            },
            HostOp::ViewFocus(id) => {
                if host::caps_allow_view(caps, Some(id@)) {
                    RunModelState {
                        commands: st1.commands.push(
                            crate::context::ViewCommandModel {
                                command_type: crate::context::ViewCommandType::Focus,
                                component_id: Some(id@),
                                args: Seq::<(Seq<char>, ValModel)>::empty(),
                            },
                        ),
                        ..st1
                    }
                } else {
                    RunModelState {
                        status: RunStatusModel::Failed(
                            perm_err("view:update:"@ + id@, "view_focus"@),
                        ),
                        ..st1
                    }
                }
            },
            HostOp::ViewCustom(id, args) => {
                let idm = match id {
                    Some(i) => Some(i@),
                    None => None,
                };
                if host::caps_allow_view(caps, idm) {
                    RunModelState {
                        commands: st1.commands.push(
                            crate::context::ViewCommandModel {
                                command_type: crate::context::ViewCommandType::Custom,
                                component_id: idm,
                                args: args.model(),
                            },
                        ),
                        ..st1
                    }
                } else {
                    RunModelState {
                        status: RunStatusModel::Failed(
                            perm_err(
                                match id {
                                    Some(i) => "view:update:"@ + i@,
                                    None => "view:update:*"@,
                                },
                                "view_custom"@,
                            ),
                        ),
                        ..st1
                    }
                }
            },
            HostOp::ExtCall(ext_name, method, a) => {
                if !crate::context::registry_has_ext(reg, ext_name@) {
                    RunModelState {
                        status: RunStatusModel::Failed(
                            crate::error::ErrModel {
                                code: crate::error::ErrorCode::ExtensionNotFound,
                                message: crate::error::spec_extension_not_found_message(
                                    ext_name@,
                                ),
                                stack: None,
                                location: None,
                                snippet: None,
                            },
                        ),
                        ..st1
                    }
                } else if !crate::context::registry_has_method(reg, ext_name@, method@) {
                    RunModelState {
                        status: RunStatusModel::Failed(
                            crate::error::ErrModel {
                                code: crate::error::ErrorCode::MethodNotFound,
                                message: crate::error::spec_method_not_found_message(
                                    ext_name@,
                                    method@,
                                ),
                                stack: None,
                                location: None,
                                snippet: None,
                            },
                        ),
                        ..st1
                    }
                } else if !host::caps_allow_ext(caps, ext_name@) {
                    RunModelState {
                        status: RunStatusModel::Failed(
                            perm_err("ext:"@ + ext_name@, "ext_call"@),
                        ),
                        ..st1
                    }
                } else {
                    RunModelState {
                        suspension: Some((ext_name@, method@, arr_model(a@))),
                        status: RunStatusModel::Suspended,
                        ..st1
                    }
                }
            },
            HostOp::Log(level, message) => {
                RunModelState {
                    logs: st1.logs.push((crate::context::spec_level_of(level), message@)),
                    ..st1
                }
            },
            HostOp::Now => st1,
        }
    }
}

/// The modeled run over a whole op list, stepping front to back.
pub open spec fn run_steps(
    caps: Seq<crate::capability::CapModel>,
    reg: Seq<(Seq<char>, Seq<Seq<char>>)>,
    limits: ResourceLimits,
    st: RunModelState,
    ops: Seq<HostOp>,
) -> RunModelState
    decreases ops.len(),
{
    if ops.len() == 0 {
        st
    } else {
        run_steps(caps, reg, limits, guest_step(caps, reg, limits, st, ops[0]), ops.drop_first())
    }
}

/// The modeled state a run starts from: the context's accumulators
/// and call count, no suspension, the run open.
pub open spec fn init_run_state(ctx: ExecutionContext) -> RunModelState {
    RunModelState {
        mutations: crate::context::mutations_model(ctx.state_mutations@),
        events: crate::context::events_model(ctx.events@),
        commands: crate::context::commands_model(ctx.view_commands@),
        logs: crate::context::logs_model(ctx.log_messages@),
        host_calls: ctx.host_call_count,
        suspension: None,
        status: RunStatusModel::Completed,
    }
}

/// The modeled state of a fresh invocation: nothing recorded yet.
pub open spec fn empty_run_state() -> RunModelState {
    RunModelState {
        mutations: Seq::empty(),
        events: Seq::empty(),
        commands: Seq::empty(),
        logs: Seq::empty(),
        host_calls: 0,
        suspension: None,
        status: RunStatusModel::Completed,
    }
}

/// Whether a context's accumulators agree with a still-open modeled
/// state.
pub open spec fn matches_state(ctx: ExecutionContext, st: RunModelState) -> bool {
    &&& crate::context::mutations_model(ctx.state_mutations@) == st.mutations
    &&& crate::context::events_model(ctx.events@) == st.events
    &&& crate::context::commands_model(ctx.view_commands@) == st.commands
    &&& crate::context::logs_model(ctx.log_messages@) == st.logs
    &&& ctx.host_call_count == st.host_calls
}

/// What one run segment guarantees: the context's accumulators equal
/// the modeled run of the op list, and the returned status matches
/// the modeled ending, with the suspension record's fields pinned up
/// to its freshly drawn id.
pub open spec fn run_guest_post(
    pre: ExecutionContext,
    ops: Seq<HostOp>,
    limits: ResourceLimits,
    post: ExecutionContext,
    r: GuestRunStatus,
) -> bool {
    let st = run_steps(
        crate::capability::caps_model(pre.capabilities@),
        pre.extension_registry.model(),
        limits,
        init_run_state(pre),
        ops,
    );
    &&& matches_state(post, st)
    &&& (match (r, st.status) {
        (GuestRunStatus::Completed, RunStatusModel::Completed) => post.suspension is None,
        (GuestRunStatus::Suspended, RunStatusModel::Suspended) => match (
        post.suspension, st.suspension) {
            (Some(sp), Some(record)) => sp.model().extension_name == record.0
                && sp.model().method == record.1 && sp.model().args == record.2 && sp.id@.len()
                == 36,
            _ => false,
        },
        (GuestRunStatus::BudgetExhausted, RunStatusModel::BudgetExhausted) => post.suspension is None,
        (GuestRunStatus::Failed(err), RunStatusModel::Failed(em)) => err.model() == em
            && post.suspension is None,
        _ => false,
    })
}

/// Stepping a run over one more trailing op.
proof fn lemma_run_steps_push(
    caps: Seq<crate::capability::CapModel>,
    reg: Seq<(Seq<char>, Seq<Seq<char>>)>,
    limits: ResourceLimits,
    st: RunModelState,
    ops: Seq<HostOp>,
    op: HostOp,
)
    ensures
        run_steps(caps, reg, limits, st, ops.push(op)) == guest_step(
            caps,
            reg,
            limits,
            run_steps(caps, reg, limits, st, ops),
            op,
        ),
    decreases ops.len(),
{
    if ops.len() == 0 {
        assert(ops.push(op)[0] == op);
        assert(ops.push(op).drop_first() =~= Seq::<HostOp>::empty());
        assert(run_steps(
            caps,
            reg,
            limits,
            guest_step(caps, reg, limits, st, op),
            Seq::<HostOp>::empty(),
        ) == guest_step(caps, reg, limits, st, op));
    } else {
        assert(ops.push(op)[0] == ops[0]);
        assert(ops.push(op).drop_first() =~= ops.drop_first().push(op));
        lemma_run_steps_push(caps, reg, limits, guest_step(caps, reg, limits, st, ops[0]), ops.drop_first(), op);
    }
}

/// An ended run absorbs every further op.
proof fn lemma_run_steps_absorbing(
    caps: Seq<crate::capability::CapModel>,
    reg: Seq<(Seq<char>, Seq<Seq<char>>)>,
    limits: ResourceLimits,
    st: RunModelState,
    ops: Seq<HostOp>,
)
    requires
        !(st.status is Completed),
    ensures
        run_steps(caps, reg, limits, st, ops) == st,
    decreases ops.len(),
{
    if ops.len() > 0 {
        lemma_run_steps_absorbing(caps, reg, limits, st, ops.drop_first());
    }
}

/// A run over a concatenation steps through the first part, then the
/// second.
proof fn lemma_run_steps_concat(
    caps: Seq<crate::capability::CapModel>,
    reg: Seq<(Seq<char>, Seq<Seq<char>>)>,
    limits: ResourceLimits,
    st: RunModelState,
    a: Seq<HostOp>,
    b: Seq<HostOp>,
)
    ensures
        run_steps(caps, reg, limits, st, a + b) == run_steps(
            caps,
            reg,
            limits,
            run_steps(caps, reg, limits, st, a),
            b,
        ),
    decreases a.len(),
{
    if a.len() == 0 {
        assert(a + b =~= b);
    } else {
        assert((a + b)[0] == a[0]);
        assert((a + b).drop_first() =~= a.drop_first() + b);
        lemma_run_steps_concat(caps, reg, limits, guest_step(caps, reg, limits, st, a[0]), a.drop_first(), b);
    }
}

/// A step only appends to the recorded effects.
proof fn lemma_step_extends(
    caps: Seq<crate::capability::CapModel>,
    reg: Seq<(Seq<char>, Seq<Seq<char>>)>,
    limits: ResourceLimits,
    st: RunModelState,
    op: HostOp,
)
    ensures
        st.mutations.is_prefix_of(guest_step(caps, reg, limits, st, op).mutations),
        st.events.is_prefix_of(guest_step(caps, reg, limits, st, op).events),
        st.commands.is_prefix_of(guest_step(caps, reg, limits, st, op).commands),
        st.logs.is_prefix_of(guest_step(caps, reg, limits, st, op).logs),
{
    let nx = guest_step(caps, reg, limits, st, op);
    assert(st.mutations.is_prefix_of(st.mutations)) by {
        assert(st.mutations.subrange(0, st.mutations.len() as int) =~= st.mutations);
    }
    assert(st.events.is_prefix_of(st.events)) by {
        assert(st.events.subrange(0, st.events.len() as int) =~= st.events);
    }
    assert(st.commands.is_prefix_of(st.commands)) by {
        assert(st.commands.subrange(0, st.commands.len() as int) =~= st.commands);
    }
    assert(st.logs.is_prefix_of(st.logs)) by {
        assert(st.logs.subrange(0, st.logs.len() as int) =~= st.logs);
    }
    if nx.mutations.len() == st.mutations.len() + 1 {
        assert(st.mutations.is_prefix_of(nx.mutations)) by {
            assert(nx.mutations.subrange(0, st.mutations.len() as int) =~= st.mutations);
        }
    }
    if nx.events.len() == st.events.len() + 1 {
        assert(st.events.is_prefix_of(nx.events)) by {
            assert(nx.events.subrange(0, st.events.len() as int) =~= st.events);
        }
    }
    if nx.commands.len() == st.commands.len() + 1 {
        assert(st.commands.is_prefix_of(nx.commands)) by {
            assert(nx.commands.subrange(0, st.commands.len() as int) =~= st.commands);
        }
    }
    if nx.logs.len() == st.logs.len() + 1 {
        assert(st.logs.is_prefix_of(nx.logs)) by {
            assert(nx.logs.subrange(0, st.logs.len() as int) =~= st.logs);
        }
    }
}

/// A run only appends to the recorded effects: the two halves of a
/// resumed invocation concatenate in call order.
pub proof fn lemma_run_steps_extends(
    caps: Seq<crate::capability::CapModel>,
    reg: Seq<(Seq<char>, Seq<Seq<char>>)>,
    limits: ResourceLimits,
    st: RunModelState,
    ops: Seq<HostOp>,
)
    ensures
        st.mutations.is_prefix_of(run_steps(caps, reg, limits, st, ops).mutations),
        st.events.is_prefix_of(run_steps(caps, reg, limits, st, ops).events),
        st.commands.is_prefix_of(run_steps(caps, reg, limits, st, ops).commands),
        st.logs.is_prefix_of(run_steps(caps, reg, limits, st, ops).logs),
    decreases ops.len(),
{
    if ops.len() == 0 {
        assert(st.mutations.subrange(0, st.mutations.len() as int) =~= st.mutations);
        assert(st.events.subrange(0, st.events.len() as int) =~= st.events);
        assert(st.commands.subrange(0, st.commands.len() as int) =~= st.commands);
        assert(st.logs.subrange(0, st.logs.len() as int) =~= st.logs);
    } else {
        let mid = guest_step(caps, reg, limits, st, ops[0]);
        lemma_step_extends(caps, reg, limits, st, ops[0]);
        lemma_run_steps_extends(caps, reg, limits, mid, ops.drop_first());
        let fin = run_steps(caps, reg, limits, st, ops);
        assert(fin == run_steps(caps, reg, limits, mid, ops.drop_first()));
        assert(st.mutations.is_prefix_of(fin.mutations)) by {
            assert(fin.mutations.subrange(0, st.mutations.len() as int) =~= st.mutations) by {
                assert(mid.mutations.subrange(0, st.mutations.len() as int) =~= st.mutations);
                assert(fin.mutations.subrange(0, mid.mutations.len() as int) =~= mid.mutations);
                assert(forall|j: int|
                    0 <= j < st.mutations.len() ==> fin.mutations[j] == mid.mutations[j]
                        && mid.mutations[j] == st.mutations[j]);
            }
        }
        assert(st.events.is_prefix_of(fin.events)) by {
            assert(fin.events.subrange(0, st.events.len() as int) =~= st.events) by {
                assert(mid.events.subrange(0, st.events.len() as int) =~= st.events);
                assert(fin.events.subrange(0, mid.events.len() as int) =~= mid.events);
                assert(forall|j: int|
                    0 <= j < st.events.len() ==> fin.events[j] == mid.events[j]
                        && mid.events[j] == st.events[j]);
            }
        }
        assert(st.commands.is_prefix_of(fin.commands)) by {
            assert(fin.commands.subrange(0, st.commands.len() as int) =~= st.commands) by {
                assert(mid.commands.subrange(0, st.commands.len() as int) =~= st.commands);
                assert(fin.commands.subrange(0, mid.commands.len() as int) =~= mid.commands);
                assert(forall|j: int|
                    0 <= j < st.commands.len() ==> fin.commands[j] == mid.commands[j]
                        && mid.commands[j] == st.commands[j]);
            }
        }
        assert(st.logs.is_prefix_of(fin.logs)) by {
            assert(fin.logs.subrange(0, st.logs.len() as int) =~= st.logs) by {
                assert(mid.logs.subrange(0, st.logs.len() as int) =~= st.logs);
                assert(fin.logs.subrange(0, mid.logs.len() as int) =~= mid.logs);
                assert(forall|j: int|
                    0 <= j < st.logs.len() ==> fin.logs[j] == mid.logs[j] && mid.logs[j]
                        == st.logs[j]);
            }
        }
    }
}

/// Runs a guest script's host calls against an execution context:
/// each call is counted against the host-call budget, checked against
/// the granted capabilities and per-invocation limits, and records
/// its effect; the run stops at the first suspension, refusal or
/// exhausted budget.  The context's accumulators end exactly as the
/// modeled run (`run_steps`) of the op list computes them.
#[verifier::rlimit(100)]
#[verifier::spinoff_prover]
pub fn run_guest(ctx: &mut ExecutionContext, ops: &Vec<HostOp>, limits: &ResourceLimits) -> (r:
    GuestRunStatus)
    requires
        old(ctx).suspension is None,
    ensures
        run_guest_post(*old(ctx), ops@, *limits, *final(ctx), r),
        old(ctx).state_mutations@.is_prefix_of(final(ctx).state_mutations@),
        old(ctx).events@.is_prefix_of(final(ctx).events@),
        old(ctx).view_commands@.is_prefix_of(final(ctx).view_commands@),
        final(ctx).capabilities == old(ctx).capabilities,
        final(ctx).state_snapshot == old(ctx).state_snapshot,
        final(ctx).args == old(ctx).args,
        final(ctx).scope == old(ctx).scope,
        final(ctx).extension_registry == old(ctx).extension_registry,
        final(ctx).panel_id == old(ctx).panel_id,
        final(ctx).handler_name == old(ctx).handler_name,
        old(ctx).host_call_count <= limits.max_host_calls ==> final(ctx).host_call_count
            <= limits.max_host_calls,
        (match r {
            GuestRunStatus::Suspended => final(ctx).suspension is Some,
            _ => final(ctx).suspension is None,
        }),
        r is BudgetExhausted && old(ctx).host_call_count <= limits.max_host_calls ==> final(ctx).host_call_count == limits.max_host_calls,
        immediate_ext_call(ops@, *old(ctx), *limits) ==> r is Suspended && final(ctx).state_mutations@ == old(ctx).state_mutations@ && final(ctx).events@ == old(ctx).events@ && final(ctx).view_commands@ == old(ctx).view_commands@ && (match (
        final(ctx).suspension, ops@[0]) {
            (Some(st), HostOp::ExtCall(e, m, a)) => st.model().extension_name == e@
                && st.model().method == m@ && st.model().args == arr_model(a@),
            _ => false,
        }),
{
    let budget = host::HostFunctions::new(limits.max_host_calls);
    let n = ops.len();
    let mut i: usize = 0;
    let ghost caps = crate::capability::caps_model(old(ctx).capabilities@);
    let ghost reg = old(ctx).extension_registry.model();
    let ghost init = init_run_state(*old(ctx));
    proof {
        assert(ops@.take(0) =~= Seq::<HostOp>::empty());
    }
    while i < n
        invariant
            i <= n,
            n == ops@.len(),
            caps == crate::capability::caps_model(old(ctx).capabilities@),
            reg == old(ctx).extension_registry.model(),
            init == init_run_state(*old(ctx)),
            matches_state(*ctx, run_steps(caps, reg, *limits, init, ops@.take(i as int))),
            run_steps(caps, reg, *limits, init, ops@.take(i as int)).status is Completed,
            run_steps(caps, reg, *limits, init, ops@.take(i as int)).suspension is None,
            old(ctx).state_mutations@.is_prefix_of(ctx.state_mutations@),
            old(ctx).events@.is_prefix_of(ctx.events@),
            old(ctx).view_commands@.is_prefix_of(ctx.view_commands@),
            ctx.capabilities == old(ctx).capabilities,
            ctx.state_snapshot == old(ctx).state_snapshot,
            ctx.args == old(ctx).args,
            ctx.scope == old(ctx).scope,
            ctx.extension_registry == old(ctx).extension_registry,
            ctx.panel_id == old(ctx).panel_id,
            ctx.handler_name == old(ctx).handler_name,
            ctx.suspension is None,
            budget.max_host_calls == limits.max_host_calls,
            old(ctx).host_call_count <= limits.max_host_calls ==> ctx.host_call_count
                <= limits.max_host_calls,
            i == 0 ==> *ctx == *old(ctx),
            i > 0 ==> !immediate_ext_call(ops@, *old(ctx), *limits),
        decreases n - i,
    {
        let ghost pre = *ctx;
        let ghost sti = run_steps(caps, reg, *limits, init, ops@.take(i as int));
        let ghost sti1 = guest_step(caps, reg, *limits, sti, ops@[i as int]);
        proof {
            assert(ops@.take(i as int + 1) =~= ops@.take(i as int).push(ops@[i as int]));
            lemma_run_steps_push(caps, reg, *limits, init, ops@.take(i as int), ops@[i as int]);
            assert(run_steps(caps, reg, *limits, init, ops@.take(i as int + 1)) == sti1);
        }
        match budget.check_host_call_limit(ctx) {
            Err(_) => {
                proof {
                    assert(sti1.status is BudgetExhausted);
                    assert(matches_state(*ctx, sti1));
                    lemma_finish_run(caps, reg, *limits, init, ops@, i as int);
                }
                return GuestRunStatus::BudgetExhausted;
            },
            Ok(_) => {},
        }
        let ghost mid = *ctx;
        match &ops[i] {
            HostOp::StateGet(key) => {
                match host::state_get(ctx, key.as_str()) {
                    Ok(_) => {
                        proof {
                            assert(matches_state(*ctx, sti1));
                        }
                    },
                    Err(_) => {
                        let mut required = "state:read:".to_owned();
                        required.append(key.as_str());
                        proof {
                            assert(matches_state(*ctx, sti1));
                            lemma_finish_run(caps, reg, *limits, init, ops@, i as int);
                        }
                        return GuestRunStatus::Failed(
                            WasmError::permission_denied(required.as_str(), "state_get"),
                        );
                    },
                }
            },
            HostOp::StateSet(key, value) => {
                if clamp_usize_u32(ctx.state_mutations.len()) >= limits.max_state_mutations {
                    proof {
                        assert(matches_state(*ctx, sti1));
                        lemma_finish_run(caps, reg, *limits, init, ops@, i as int);
                    }
                    return GuestRunStatus::Failed(
                        WasmError::resource_limit(
                            "state_mutations",
                            limits.max_state_mutations,
                            clamp_usize_u32(ctx.state_mutations.len()),
                        ),
                    );
                }
                match host::state_set(ctx, key.as_str(), value.clone()) {
                    Ok(_) => {
                        proof {
                            lemma_push_prefix(
                                old(ctx).state_mutations@,
                                pre.state_mutations@,
                                ctx.state_mutations@,
                            );
                            assert(crate::context::mutations_model(ctx.state_mutations@)
                                =~= sti1.mutations);
                            assert(matches_state(*ctx, sti1));
                        }
                    },
                    Err(_) => {
                        let mut required = "state:write:".to_owned();
                        required.append(key.as_str());
                        proof {
                            assert(matches_state(*ctx, sti1));
                            lemma_finish_run(caps, reg, *limits, init, ops@, i as int);
                        }
                        return GuestRunStatus::Failed(
                            WasmError::permission_denied(required.as_str(), "state_set"),
                        );
                    },
                }
            },
            HostOp::StateDelete(key) => {
                if clamp_usize_u32(ctx.state_mutations.len()) >= limits.max_state_mutations {
                    proof {
                        assert(matches_state(*ctx, sti1));
                        lemma_finish_run(caps, reg, *limits, init, ops@, i as int);
                    }
                    return GuestRunStatus::Failed(
                        WasmError::resource_limit(
                            "state_mutations",
                            limits.max_state_mutations,
                            clamp_usize_u32(ctx.state_mutations.len()),
                        ),
                    );
                }
                match host::state_delete(ctx, key.as_str()) {
                    Ok(_) => {
                        proof {
                            lemma_push_prefix(
                                old(ctx).state_mutations@,
                                pre.state_mutations@,
                                ctx.state_mutations@,
                            );
                            assert(crate::context::mutations_model(ctx.state_mutations@)
                                =~= sti1.mutations);
                            assert(matches_state(*ctx, sti1));
                        }
                    },
                    Err(_) => {
                        let mut required = "state:write:".to_owned();
                        required.append(key.as_str());
                        proof {
                            assert(matches_state(*ctx, sti1));
                            lemma_finish_run(caps, reg, *limits, init, ops@, i as int);
                        }
                        return GuestRunStatus::Failed(
                            WasmError::permission_denied(required.as_str(), "state_delete"),
                        );
                    },
                }
            },
            HostOp::StateHas(key) => {
                match host::state_has(ctx, key.as_str()) {
                    Ok(_) => {
                        proof {
                            assert(matches_state(*ctx, sti1));
                        }
                    },
                    Err(_) => {
                        let mut required = "state:read:".to_owned();
                        required.append(key.as_str());
                        proof {
                            assert(matches_state(*ctx, sti1));
                            lemma_finish_run(caps, reg, *limits, init, ops@, i as int);
                        }
                        return GuestRunStatus::Failed(
                            WasmError::permission_denied(required.as_str(), "state_has"),
                        );
                    },
                }
            },
            HostOp::StateKeys => {
                match host::state_keys(ctx) {
                    Ok(_) => {
                        proof {
                            assert(matches_state(*ctx, sti1));
                        }
                    },
                    Err(_) => {
                        proof {
                            assert(matches_state(*ctx, sti1));
                            lemma_finish_run(caps, reg, *limits, init, ops@, i as int);
                        }
                        return GuestRunStatus::Failed(
                            WasmError::permission_denied("state:read:*", "state_keys"),
                        );
                    },
                }
            },
            HostOp::EmitEvent(name, payload) => {
                if clamp_usize_u32(ctx.events.len()) >= limits.max_events {
                    proof {
                        assert(matches_state(*ctx, sti1));
                        lemma_finish_run(caps, reg, *limits, init, ops@, i as int);
                    }
                    return GuestRunStatus::Failed(
                        WasmError::resource_limit(
                            "events",
                            limits.max_events,
                            clamp_usize_u32(ctx.events.len()),
                        ),
                    );
                }
                match host::emit_event(ctx, name.as_str(), payload.clone()) {
                    Ok(_) => {
                        proof {
                            lemma_push_prefix(old(ctx).events@, pre.events@, ctx.events@);
                            assert(crate::context::events_model(ctx.events@) =~= sti1.events);
                            assert(matches_state(*ctx, sti1));
                        }
                    },
                    Err(_) => {
                        let mut required = "events:emit:".to_owned();
                        required.append(name.as_str());
                        proof {
                            assert(matches_state(*ctx, sti1));
                            lemma_finish_run(caps, reg, *limits, init, ops@, i as int);
                        }
                        return GuestRunStatus::Failed(
                            WasmError::permission_denied(required.as_str(), "emit_event"),
                        );
                    },
                }
            },
            HostOp::ViewSetFilter(id, value) => {
                match host::view_set_filter(ctx, id.as_str(), value.clone()) {
                    Ok(_) => {
                        proof {
                            lemma_push_prefix(
                                old(ctx).view_commands@,
                                pre.view_commands@,
                                ctx.view_commands@,
                            );
                            assert(crate::context::commands_model(ctx.view_commands@)
                                =~= sti1.commands);
                            assert(matches_state(*ctx, sti1));
                        }
                    },
                    Err(_) => {
                        let mut required = "view:update:".to_owned();
                        required.append(id.as_str());
                        proof {
                            assert(matches_state(*ctx, sti1));
                            lemma_finish_run(caps, reg, *limits, init, ops@, i as int);
                        }
                        return GuestRunStatus::Failed(
                            WasmError::permission_denied(required.as_str(), "view_set_filter"),
                        );
                    },
                }
            },
            HostOp::ViewScrollTo(id, position) => {
                match host::view_scroll_to(ctx, id.as_str(), position.clone()) {
                    Ok(_) => {
                        proof {
                            lemma_push_prefix(
                                old(ctx).view_commands@,
                                pre.view_commands@,
                                ctx.view_commands@,
                            );
                            assert(crate::context::commands_model(ctx.view_commands@)
                                =~= sti1.commands);
                            assert(matches_state(*ctx, sti1));
                        }
                    },
                    Err(_) => {
                        let mut required = "view:update:".to_owned();
                        required.append(id.as_str());
                        proof {
                            assert(matches_state(*ctx, sti1));
                            lemma_finish_run(caps, reg, *limits, init, ops@, i as int);
                        }
                        return GuestRunStatus::Failed(
                            WasmError::permission_denied(required.as_str(), "view_scroll_to"),
                        );
                    },
                }
            },
            HostOp::ViewFocus(id) => {
                match host::view_focus(ctx, id.as_str()) {
                    Ok(_) => {
                        proof {
                            lemma_push_prefix(
                                old(ctx).view_commands@,
                                pre.view_commands@,
                                ctx.view_commands@,
                            );
                            assert(crate::context::commands_model(ctx.view_commands@)
                                =~= sti1.commands);
                            assert(matches_state(*ctx, sti1));
                        }
                    },
                    Err(_) => {
                        let mut required = "view:update:".to_owned();
                        required.append(id.as_str());
                        proof {
                            assert(matches_state(*ctx, sti1));
                            lemma_finish_run(caps, reg, *limits, init, ops@, i as int);
                        }
                        return GuestRunStatus::Failed(
                            WasmError::permission_denied(required.as_str(), "view_focus"),
                        );
                    },
                }
            },
            HostOp::ViewCustom(id, args) => {
                let id_ref = match id {
                    Some(s) => Some(s.as_str()),
                    None => None,
                };
                match host::view_custom(ctx, id_ref, args.clone()) {
                    Ok(_) => {
                        proof {
                            lemma_push_prefix(
                                old(ctx).view_commands@,
                                pre.view_commands@,
                                ctx.view_commands@,
                            );
                            assert(crate::context::commands_model(ctx.view_commands@)
                                =~= sti1.commands);
                            assert(matches_state(*ctx, sti1));
                        }
                    },
                    Err(_) => {
                        let required = match id {
                            Some(s) => {
                                let mut req = "view:update:".to_owned();
                                req.append(s.as_str());
                                req
                            },
                            None => "view:update:*".to_owned(),
                        };
                        proof {
                            assert(matches_state(*ctx, sti1));
                            lemma_finish_run(caps, reg, *limits, init, ops@, i as int);
                        }
                        return GuestRunStatus::Failed(
                            WasmError::permission_denied(required.as_str(), "view_custom"),
                        );
                    },
                }
            },
            HostOp::ExtCall(ext_name, method, args) => {
                if !ctx.extension_registry.has_ext(ext_name.as_str()) {
                    proof {
                        assert(matches_state(*ctx, sti1));
                        lemma_finish_run(caps, reg, *limits, init, ops@, i as int);
                    }
                    return GuestRunStatus::Failed(
                        WasmError::extension_not_found(ext_name.as_str()),
                    );
                }
                if !ctx.extension_registry.has_method(ext_name.as_str(), method.as_str()) {
                    proof {
                        assert(matches_state(*ctx, sti1));
                        lemma_finish_run(caps, reg, *limits, init, ops@, i as int);
                    }
                    return GuestRunStatus::Failed(
                        WasmError::method_not_found(ext_name.as_str(), method.as_str()),
                    );
                }
                let args_copy = clone_values(args);
                match host::ext_suspend(ctx, ext_name.as_str(), method.as_str(), args_copy) {
                    Ok(_) => {
                        proof {
                            assert(sti1.status is Suspended);
                            assert(matches_state(*ctx, sti1));
                            lemma_finish_run(caps, reg, *limits, init, ops@, i as int);
                        }
                        return GuestRunStatus::Suspended;
                    },
                    Err(_) => {
                        let mut required = "ext:".to_owned();
                        required.append(ext_name.as_str());
                        proof {
                            assert(matches_state(*ctx, sti1));
                            lemma_finish_run(caps, reg, *limits, init, ops@, i as int);
                        }
                        return GuestRunStatus::Failed(
                            WasmError::permission_denied(required.as_str(), "ext_call"),
                        );
                    },
                }
            },
            HostOp::Log(level, message) => {
                let _ = host::log(ctx, *level, message.as_str());
                proof {
                    assert(crate::context::logs_model(ctx.log_messages@) =~= sti1.logs);
                    assert(matches_state(*ctx, sti1));
                }
            },
            HostOp::Now => {
                let _ = host::now();
                proof {
                    assert(matches_state(*ctx, sti1));
                }
            },
        }
        i += 1;
    }
    proof {
        assert(ops@.take(n as int) =~= ops@);
    }
    GuestRunStatus::Completed
}

/// The modeled run of a whole list equals the modeled run of the
/// prefix that ended it.
proof fn lemma_finish_run(
    caps: Seq<crate::capability::CapModel>,
    reg: Seq<(Seq<char>, Seq<Seq<char>>)>,
    limits: ResourceLimits,
    init: RunModelState,
    ops: Seq<HostOp>,
    i: int,
)
    requires
        0 <= i < ops.len(),
        !(run_steps(caps, reg, limits, init, ops.take(i + 1)).status is Completed),
    ensures
        run_steps(caps, reg, limits, init, ops) == run_steps(caps, reg, limits, init, ops.take(i + 1)),
{
    assert(ops =~= ops.take(i + 1) + ops.skip(i + 1));
    lemma_run_steps_concat(caps, reg, limits, init, ops.take(i + 1), ops.skip(i + 1));
    lemma_run_steps_absorbing(
        caps,
        reg,
        limits,
        run_steps(caps, reg, limits, init, ops.take(i + 1)),
        ops.skip(i + 1),
    );
}

/// Whether a script's first host call awaits a registered, granted
/// extension while budget remains: such a run suspends immediately
/// with no effects.
pub open spec fn immediate_ext_call(
    ops: Seq<HostOp>,
    ctx: ExecutionContext,
    limits: ResourceLimits,
) -> bool {
    &&& ops.len() > 0
    &&& (ops[0] matches HostOp::ExtCall(e, m, a))
    &&& (match ops[0] {
        HostOp::ExtCall(e, m, a) => crate::context::registry_has_method(
            ctx.extension_registry.model(),
            e@,
            m@,
        ) && host::allows_ext(ctx, e@),
        _ => false,
    })
    &&& ctx.host_call_count < limits.max_host_calls
}

/// A pushed-to sequence keeps its old prefixes.
proof fn lemma_push_prefix<T>(base: Seq<T>, mid: Seq<T>, now: Seq<T>)
    requires
        base.is_prefix_of(mid),
        now.len() == mid.len() + 1,
        now.drop_last() == mid,
    ensures
        base.is_prefix_of(now),
{
    assert(now.subrange(0, base.len() as int) =~= mid.subrange(0, base.len() as int));
}

/// Lifecycle states of an instance.
#[derive(Debug, Clone, Copy, PartialEq, Eq, Structural)]
pub enum InstanceState {
    /// Idle and available.
    Idle,
    /// Currently executing.
    Executing,
    /// Awaiting an extension result.
    Suspended,
    /// Terminated; absorbing.
    Terminated,
}

/// The lifecycle edges an instance may move along: staying put,
/// starting to execute, completing, suspending, resuming, an explicit
/// reset back to idle, and terminating from any state.
pub open spec fn state_edge_ok(pre: InstanceState, post: InstanceState) -> bool {
    ||| pre == post
    ||| (pre == InstanceState::Idle && post == InstanceState::Executing)
    ||| (pre == InstanceState::Executing && post == InstanceState::Idle)
    ||| (pre == InstanceState::Executing && post == InstanceState::Suspended)
    ||| (pre == InstanceState::Suspended && post == InstanceState::Executing)
    ||| (pre != InstanceState::Terminated && post == InstanceState::Idle)
    ||| post == InstanceState::Terminated
}

/// One guest instance.
#[derive(Debug)]
pub struct WasmInstance {
    /// Unique instance id.
    pub id: String,
    /// Lifecycle state.
    pub state: InstanceState,
    /// Per-invocation resource limits.
    pub limits: ResourceLimits,
    /// Memory in use, in bytes.
    pub memory_used: u64,
    /// Peak memory, in bytes.
    pub memory_peak: u64,
    /// Number of executions started on this instance.
    pub execution_count: u64,
    /// The execution context of the running or suspended invocation.
    pub context: Option<ExecutionContext>,
    /// The pending suspension id, while suspended.
    pub suspension_id: Option<String>,
}

impl WasmInstance {
    /// Well-formed instances: a suspended instance holds its context
    /// and suspension id; an idle one holds neither.
    pub open spec fn wf(self) -> bool {
        &&& (self.state == InstanceState::Suspended ==> self.suspension_id is Some
            && self.context is Some && (match self.context {
            Some(c) => c.suspension is Some,
            None => false,
        }))
        &&& (self.state == InstanceState::Idle ==> self.suspension_id is None)
    }

    /// Creates an idle instance with a fresh id and the configured
    /// limits.
    pub fn new(config: &RuntimeConfig) -> (r: Result<WasmInstance, crate::error::RuntimeError>)
        ensures
            match r {
                Ok(inst) => inst.wf() && inst.state == InstanceState::Idle && inst.memory_used
                    == 0 && inst.memory_peak == 0 && inst.execution_count == 0
                    && inst.context is None && inst.suspension_id is None && inst.limits == (
                ResourceLimits {
                    timeout_ms: config.timeout_ms,
                    memory_limit_bytes: config.memory_limit_bytes,
                    stack_size_bytes: config.stack_size_bytes,
                    max_host_calls: config.max_host_calls,
                    max_state_mutations: config.max_state_mutations,
                    max_events: config.max_events,
                }) && inst.id@.len() == 36,
                Err(_) => false,
            },
    {
        Ok(
            WasmInstance {
                id: host::fresh_uuid(),
                state: InstanceState::Idle,
                limits: ResourceLimits::from_config(config),
                memory_used: 0,
                memory_peak: 0,
                execution_count: 0,
                context: None,
                suspension_id: None,
            },
        )
    }

    /// The instance id.
    pub fn id(&self) -> (r: &str)
        ensures
            r@ == self.id@,
    {
        self.id.as_str()
    }

    /// The lifecycle state.
    pub fn state(&self) -> (r: InstanceState)
        ensures
            r == self.state,
    {
        self.state
    }

    /// Memory in use.
    pub fn memory_used(&self) -> (r: u64)
        ensures
            r == self.memory_used,
    {
        self.memory_used
    }

    /// Peak memory.
    pub fn memory_peak(&self) -> (r: u64)
        ensures
            r == self.memory_peak,
    {
        self.memory_peak
    }

    /// The pending suspension id, while suspended.
    pub fn suspension_id(&self) -> (r: Option<&str>)
        ensures
            match (r, self.suspension_id) {
                (Some(a), Some(b)) => a@ == b@,
                (None, None) => true,
                _ => false,
            },
    {
        match &self.suspension_id {
            Some(id) => Some(id.as_str()),
            None => None,
        }
    }

    /// Returns the instance to idle for reuse, dropping any held
    /// context; a terminated instance cannot be reset.
    pub fn reset(&mut self) -> (r: Result<(), crate::error::RuntimeError>)
        ensures
            state_edge_ok(old(self).state, final(self).state),
            final(self).wf(),
            old(self).state == InstanceState::Terminated ==> r is Err && *final(self) == *old(self),
            old(self).state != InstanceState::Terminated ==> r is Ok && final(self).state
                == InstanceState::Idle && final(self).context is None && final(self).suspension_id is None && final(self).memory_used == 0 && final(self).id == old(self).id && final(self).execution_count == old(self).execution_count && final(self).limits == old(self).limits,
    {
        if matches!(self.state, InstanceState::Terminated) {
            return Err(
                crate::error::RuntimeError::InvalidState(
                    "Cannot reset terminated instance".to_owned(),
                ),
            );
        }
        self.state = InstanceState::Idle;
        self.context = None;
        self.suspension_id = None;
        self.memory_used = 0;
        Ok(())
    }

    /// Terminates the instance; idempotent, and absorbing.
    pub fn terminate(&mut self)
        ensures
            state_edge_ok(old(self).state, final(self).state),
            final(self).wf(),
            final(self).state == InstanceState::Terminated,
            final(self).context is None,
            final(self).suspension_id is None,
            final(self).id == old(self).id,
            final(self).limits == old(self).limits,
            final(self).memory_used == old(self).memory_used,
            final(self).memory_peak == old(self).memory_peak,
            final(self).execution_count == old(self).execution_count,
    {
        self.state = InstanceState::Terminated;
        self.context = None;
        self.suspension_id = None;
    }
}

/// Whether a script begins by awaiting a registered, granted
/// extension under a fresh invocation with budget to spare: such an
/// execution suspends immediately with no recorded effects.
pub open spec fn immediate_suspension(
    ops: Seq<HostOp>,
    wc: crate::context::WasmContext,
    limits: ResourceLimits,
) -> bool {
    &&& ops.len() > 0
    &&& (match ops[0] {
        HostOp::ExtCall(e, m, a) => crate::context::registry_has_method(
            wc.extension_registry.model(),
            e@,
            m@,
        ) && host::caps_allow_ext(crate::capability::caps_model(wc.capabilities@), e@),
        _ => false,
    })
    &&& limits.max_host_calls > 0
}

/// A lifecycle move of one invocation call: a single edge, or two
/// edges through the executing state.
pub open spec fn state_path_ok(pre: InstanceState, post: InstanceState) -> bool {
    ||| state_edge_ok(pre, post)
    ||| (state_edge_ok(pre, InstanceState::Executing) && state_edge_ok(
        InstanceState::Executing,
        post,
    ))
}

/// What an invocation result owes to the script it replayed: the
/// result's effects equal the modeled run's, and its status, value
/// and error follow from how the modeled run and the guest's own
/// outcome ended.
pub open spec fn execute_outcome_post(
    caps: Seq<crate::capability::CapModel>,
    reg: Seq<(Seq<char>, Seq<Seq<char>>)>,
    limits: ResourceLimits,
    init: RunModelState,
    script: &GuestScript,
    timeout_ms: u32,
    res: crate::context::WasmResult,
) -> bool {
    let st = run_steps(caps, reg, limits, init, script.ops@);
    &&& res.model().state_mutations == st.mutations
    &&& res.model().events == st.events
    &&& res.model().view_commands == st.commands
    &&& (match st.status {
        RunStatusModel::Completed => match script.outcome {
            GuestOutcome::Complete(v) => res.status == crate::context::ExecutionStatus::Success
                && (match (res.model().return_value, v) {
                (Some(a), Some(b)) => a == b.model(),
                (None, None) => true,
                _ => false,
            }) && res.model().error is None && res.model().suspension is None,
            GuestOutcome::Fail(e) => res.status == crate::context::ExecutionStatus::Error
                && res.model().error == Some(e.model()),
            GuestOutcome::TimedOut => res.status == crate::context::ExecutionStatus::Error
                && res.model().error == Some(
                crate::error::ErrModel {
                    code: crate::error::ErrorCode::Timeout,
                    message: crate::error::spec_timeout_message(timeout_ms as nat),
                    stack: None,
                    location: None,
                    snippet: None,
                },
            ),
        },
        RunStatusModel::Suspended => res.status == crate::context::ExecutionStatus::Suspended
            && (match (res.model().suspension, st.suspension) {
            (Some(sm), Some(record)) => sm.extension_name == record.0 && sm.method == record.1
                && sm.args == record.2 && sm.suspension_id.len() == 36,
            _ => false,
        }),
        RunStatusModel::BudgetExhausted => res.status == crate::context::ExecutionStatus::Error
            && res.model().error == Some(
            reslim_err("host_calls"@, limits.max_host_calls, st.host_calls),
        ),
        RunStatusModel::Failed(em) => res.status == crate::context::ExecutionStatus::Error
            && res.model().error == Some(em),
    })
}

impl WasmInstance {
    /// Executes a compiled handler: the instance moves to executing, a
    /// fresh execution context is built from the invocation context,
    /// the guest's host calls are replayed against it, and the outcome
    /// becomes a structured result carrying the accumulated effects.
    /// A suspension leaves the instance suspended; an aborted run
    /// (wall clock expired) leaves it executing for the pool to
    /// terminate; every other outcome returns it to idle.
    #[verifier::rlimit(100)]
    #[verifier::spinoff_prover]
    pub fn execute(
        &mut self,
        compiled: &crate::compiler::CompiledHandler,
        wasm_context: crate::context::WasmContext,
        timeout_ms: u32,
        script: &GuestScript,
    ) -> (r: Result<crate::context::WasmResult, crate::error::RuntimeError>)
        requires
            old(self).wf(),
        ensures
            final(self).wf(),
            state_path_ok(old(self).state, final(self).state),
            old(self).state != InstanceState::Idle ==> r is Err && *final(self) == *old(self),
            old(self).state == InstanceState::Idle ==> match r {
                Ok(res) => {
                    &&& final(self).execution_count == crate::metrics::clamp64(
                        old(self).execution_count + 1,
                    )
                    &&& final(self).id == old(self).id
                    &&& final(self).limits == old(self).limits
                    &&& ((res.status == crate::context::ExecutionStatus::Suspended) <==> final(self).state == InstanceState::Suspended)
                    &&& (res.status == crate::context::ExecutionStatus::Suspended ==> res.model().suspension is Some
                        && final(self).suspension_id is Some)
                    &&& (res.status != crate::context::ExecutionStatus::Suspended ==> final(self).state == InstanceState::Idle || final(self).state
                        == InstanceState::Executing)
                    &&& (final(self).state == InstanceState::Executing ==> (
                    script.outcome is TimedOut) && (match res.model().error {
                        Some(e) => e.code == crate::error::ErrorCode::Timeout,
                        None => false,
                    }))
                    &&& (res.status == crate::context::ExecutionStatus::Success
                        ==> res.model().error is None && res.model().suspension is None)
                    &&& (res.status == crate::context::ExecutionStatus::Error
                        ==> res.model().error is Some)
                    &&& execute_outcome_post(
                        crate::capability::caps_model(wasm_context.capabilities@),
                        wasm_context.extension_registry.model(),
                        old(self).limits,
                        empty_run_state(),
                        script,
                        timeout_ms,
                        res,
                    )
                    &&& (immediate_suspension(script.ops@, wasm_context, old(self).limits)
                        ==> res.status == crate::context::ExecutionStatus::Suspended
                        && res.model().state_mutations.len() == 0 && res.model().events.len()
                        == 0 && res.model().view_commands.len() == 0 && (match (
                    res.model().suspension, script.ops@[0]) {
                        (Some(sm), HostOp::ExtCall(e, m, a)) => sm.extension_name == e@
                            && sm.method == m@ && sm.args == arr_model(a@),
                        _ => false,
                    }))
                },
                Err(_) => false,
            },
    {
        if !(matches!(self.state, InstanceState::Idle)) {
            return Err(
                crate::error::RuntimeError::InvalidState("Instance not idle".to_owned()),
            );
        }
        self.state = InstanceState::Executing;
        self.execution_count = self.execution_count.saturating_add(1);
        let timer = crate::metrics::ExecutionTimer::start();
        let mut ctx = crate::context::ExecutionContext::from_wasm_context(wasm_context);
        proof {
            assert(crate::context::mutations_model(ctx.state_mutations@) =~= Seq::<
                crate::context::MutationModel,
            >::empty());
            assert(crate::context::events_model(ctx.events@) =~= Seq::<
                crate::context::EventModel,
            >::empty());
            assert(crate::context::commands_model(ctx.view_commands@) =~= Seq::<
                crate::context::ViewCommandModel,
            >::empty());
            assert(crate::context::logs_model(ctx.log_messages@) =~= Seq::<
                (crate::context::LogLevel, Seq<char>),
            >::empty());
            assert(init_run_state(ctx) =~= empty_run_state());
        }
        let run_status = run_guest(&mut ctx, &script.ops, &self.limits);
        let metrics = crate::metrics::ExecutionMetrics::new().with_duration(
            timer.elapsed_us(),
        ).with_memory(self.memory_used, self.memory_peak);
        let mutations = clone_mutations(&ctx.state_mutations);
        let events = clone_events(&ctx.events);
        let commands = clone_commands(&ctx.view_commands);
        match run_status {
            GuestRunStatus::Suspended => {
                let details = match &ctx.suspension {
                    Some(st) => SuspensionDetails::new(
                        st.id.clone(),
                        st.extension_name.clone(),
                        st.method.clone(),
                        clone_values(&st.args),
                    ),
                    None => {
                        proof {
                            assert(false);
                        }
                        SuspensionDetails::new(
                            "".to_owned(),
                            "".to_owned(),
                            "".to_owned(),
                            Vec::new(),
                        )
                    },
                };
                self.suspension_id = Some(details.suspension_id.clone());
                self.state = InstanceState::Suspended;
                self.context = Some(ctx);
                Ok(
                    crate::context::WasmResult {
                        status: crate::context::ExecutionStatus::Suspended,
                        return_value: None,
                        state_mutations: mutations,
                        events,
                        view_commands: commands,
                        suspension: Some(details),
                        error: None,
                        metrics,
                    },
                )
            },
            GuestRunStatus::BudgetExhausted => {
                self.state = InstanceState::Idle;
                self.context = None;
                self.suspension_id = None;
                let err = WasmError::resource_limit(
                    "host_calls",
                    self.limits.max_host_calls,
                    ctx.host_call_count,
                );
                Ok(
                    crate::context::WasmResult {
                        status: crate::context::ExecutionStatus::Error,
                        return_value: None,
                        state_mutations: mutations,
                        events,
                        view_commands: commands,
                        suspension: None,
                        error: Some(err),
                        metrics,
                    },
                )
            },
            GuestRunStatus::Failed(err) => {
                self.state = InstanceState::Idle;
                self.context = None;
                self.suspension_id = None;
                Ok(
                    crate::context::WasmResult {
                        status: crate::context::ExecutionStatus::Error,
                        return_value: None,
                        state_mutations: mutations,
                        events,
                        view_commands: commands,
                        suspension: None,
                        error: Some(err),
                        metrics,
                    },
                )
            },
            GuestRunStatus::Completed => {
                match &script.outcome {
                    GuestOutcome::Complete(value) => {
                        self.state = InstanceState::Idle;
                        self.context = None;
                        self.suspension_id = None;
                        let return_value = match value {
                            Some(v) => Some(v.clone()),
                            None => None,
                        };
                        Ok(
                            crate::context::WasmResult {
                                status: crate::context::ExecutionStatus::Success,
                                return_value,
                                state_mutations: mutations,
                                events,
                                view_commands: commands,
                                suspension: None,
                                error: None,
                                metrics,
                            },
                        )
                    },
                    GuestOutcome::Fail(err) => {
                        self.state = InstanceState::Idle;
                        self.context = None;
                        self.suspension_id = None;
                        Ok(
                            crate::context::WasmResult {
                                status: crate::context::ExecutionStatus::Error,
                                return_value: None,
                                state_mutations: mutations,
                                events,
                                view_commands: commands,
                                suspension: None,
                                error: Some(err.clone()),
                                metrics,
                            },
                        )
                    },
                    GuestOutcome::TimedOut => {
                        self.context = Some(ctx);
                        Ok(
                            crate::context::WasmResult {
                                status: crate::context::ExecutionStatus::Error,
                                return_value: None,
                                state_mutations: mutations,
                                events,
                                view_commands: commands,
                                suspension: None,
                                error: Some(WasmError::timeout(timeout_ms)),
                                metrics,
                            },
                        )
                    },
                }
            },
        }
    }

    /// Resumes a suspended handler with the host's async result: the
    /// pending suspension is consumed, the guest's further host calls
    /// are replayed, and the outcome is handled exactly as in
    /// `execute`, including the possibility of suspending again.
    #[verifier::rlimit(100)]
    #[verifier::spinoff_prover]
    pub fn resume(&mut self, result: crate::context::AsyncResult, script: &GuestScript) -> (r:
        Result<crate::context::WasmResult, crate::error::RuntimeError>)
        requires
            old(self).wf(),
        ensures
            final(self).wf(),
            state_edge_ok(old(self).state, final(self).state),
            old(self).state != InstanceState::Suspended ==> r is Err && *final(self) == *old(self),
            old(self).state == InstanceState::Suspended ==> match r {
                Ok(res) => {
                    &&& final(self).id == old(self).id
                    &&& final(self).limits == old(self).limits
                    &&& ((res.status == crate::context::ExecutionStatus::Suspended) <==> final(self).state == InstanceState::Suspended)
                    &&& (res.status == crate::context::ExecutionStatus::Suspended ==> res.model().suspension is Some
                        && final(self).suspension_id is Some)
                    &&& (res.status != crate::context::ExecutionStatus::Suspended ==> final(self).state == InstanceState::Idle || final(self).state
                        == InstanceState::Executing)
                    &&& (final(self).state == InstanceState::Executing ==> (
                    script.outcome is TimedOut))
                    &&& (res.status == crate::context::ExecutionStatus::Success
                        ==> res.model().error is None && res.model().suspension is None)
                    &&& (res.status == crate::context::ExecutionStatus::Error
                        ==> res.model().error is Some)
                    &&& (match old(self).context {
                        Some(prev) => {
                            &&& execute_outcome_post(
                                crate::capability::caps_model(prev.capabilities@),
                                prev.extension_registry.model(),
                                old(self).limits,
                                init_run_state(prev),
                                script,
                                old(self).limits.timeout_ms,
                                res,
                            )
                            &&& crate::context::mutations_model(
                                prev.state_mutations@,
                            ).is_prefix_of(res.model().state_mutations)
                            &&& crate::context::events_model(prev.events@).is_prefix_of(
                                res.model().events,
                            )
                            &&& crate::context::commands_model(
                                prev.view_commands@,
                            ).is_prefix_of(res.model().view_commands)
                        },
                        None => false,
                    })
                },
                Err(_) => false,
            },
    {
        if !(matches!(self.state, InstanceState::Suspended)) {
            return Err(
                crate::error::RuntimeError::InvalidState("Instance not suspended".to_owned()),
            );
        }
        self.state = InstanceState::Executing;
        self.suspension_id = None;
        let timer = crate::metrics::ExecutionTimer::start();
        let mut ctx = match self.context.take() {
            Some(c) => c,
            None => {
                proof {
                    assert(false);
                }
                return Err(crate::error::RuntimeError::InvalidState("No context".to_owned()));
            },
        };
        ctx.suspension = None;
        proof {
            let prev = old(self).context->Some_0;
            assert(init_run_state(ctx) =~= init_run_state(prev));
            lemma_run_steps_extends(
                crate::capability::caps_model(ctx.capabilities@),
                ctx.extension_registry.model(),
                self.limits,
                init_run_state(ctx),
                script.ops@,
            );
        }
        let run_status = run_guest(&mut ctx, &script.ops, &self.limits);
        let metrics = crate::metrics::ExecutionMetrics::new().with_duration(
            timer.elapsed_us(),
        ).with_memory(self.memory_used, self.memory_peak);
        let mutations = clone_mutations(&ctx.state_mutations);
        let events = clone_events(&ctx.events);
        let commands = clone_commands(&ctx.view_commands);
        match run_status {
            GuestRunStatus::Suspended => {
                let details = match &ctx.suspension {
                    Some(st) => SuspensionDetails::new(
                        st.id.clone(),
                        st.extension_name.clone(),
                        st.method.clone(),
                        clone_values(&st.args),
                    ),
                    None => {
                        proof {
                            assert(false);
                        }
                        SuspensionDetails::new(
                            "".to_owned(),
                            "".to_owned(),
                            "".to_owned(),
                            Vec::new(),
                        )
                    },
                };
                self.suspension_id = Some(details.suspension_id.clone());
                self.state = InstanceState::Suspended;
                self.context = Some(ctx);
                Ok(
                    crate::context::WasmResult {
                        status: crate::context::ExecutionStatus::Suspended,
                        return_value: None,
                        state_mutations: mutations,
                        events,
                        view_commands: commands,
                        suspension: Some(details),
                        error: None,
                        metrics,
                    },
                )
            },
            GuestRunStatus::BudgetExhausted => {
                self.state = InstanceState::Idle;
                self.context = None;
                self.suspension_id = None;
                let err = WasmError::resource_limit(
                    "host_calls",
                    self.limits.max_host_calls,
                    ctx.host_call_count,
                );
                Ok(
                    crate::context::WasmResult {
                        status: crate::context::ExecutionStatus::Error,
                        return_value: None,
                        state_mutations: mutations,
                        events,
                        view_commands: commands,
                        suspension: None,
                        error: Some(err),
                        metrics,
                    },
                )
            },
            GuestRunStatus::Failed(err) => {
                self.state = InstanceState::Idle;
                self.context = None;
                self.suspension_id = None;
                Ok(
                    crate::context::WasmResult {
                        status: crate::context::ExecutionStatus::Error,
                        return_value: None,
                        state_mutations: mutations,
                        events,
                        view_commands: commands,
                        suspension: None,
                        error: Some(err),
                        metrics,
                    },
                )
            },
            GuestRunStatus::Completed => {
                match &script.outcome {
                    GuestOutcome::Complete(value) => {
                        self.state = InstanceState::Idle;
                        self.context = None;
                        self.suspension_id = None;
                        let return_value = match value {
                            Some(v) => Some(v.clone()),
                            None => None,
                        };
                        Ok(
                            crate::context::WasmResult {
                                status: crate::context::ExecutionStatus::Success,
                                return_value,
                                state_mutations: mutations,
                                events,
                                view_commands: commands,
                                suspension: None,
                                error: None,
                                metrics,
                            },
                        )
                    },
                    GuestOutcome::Fail(err) => {
                        self.state = InstanceState::Idle;
                        self.context = None;
                        self.suspension_id = None;
                        Ok(
                            crate::context::WasmResult {
                                status: crate::context::ExecutionStatus::Error,
                                return_value: None,
                                state_mutations: mutations,
                                events,
                                view_commands: commands,
                                suspension: None,
                                error: Some(err.clone()),
                                metrics,
                            },
                        )
                    },
                    GuestOutcome::TimedOut => {
                        self.context = Some(ctx);
                        Ok(
                            crate::context::WasmResult {
                                status: crate::context::ExecutionStatus::Error,
                                return_value: None,
                                state_mutations: mutations,
                                events,
                                view_commands: commands,
                                suspension: None,
                                error: Some(WasmError::timeout(self.limits.timeout_ms)),
                                metrics,
                            },
                        )
                    },
                }
            },
        }
    }
}

} // verus!
