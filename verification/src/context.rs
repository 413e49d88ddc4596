//! Execution context types: the host-supplied invocation context, the
//! internal accumulator a running handler mutates through host calls,
//! and the structured result returned to the host.

use vstd::prelude::*;

use crate::capability::CapModel;
use crate::capability::CapabilityToken;
use crate::capability::caps_model;
use crate::capability::spec_check;
use crate::error::ErrModel;
use crate::error::WasmError;
use crate::metrics::ExecutionMetrics;
use crate::metrics::counts32_model;
use crate::text::str_eq;
use crate::value::RuntimeValue;
use crate::value::ValModel;
use crate::value::ValueMap;
use crate::value::arr_model;

verus! {

/// Execution status of a handler invocation.
#[derive(Debug, Clone, Copy, PartialEq, Eq, Structural)]
pub enum ExecutionStatus {
    /// The handler completed.
    Success,
    /// The handler failed.
    Error,
    /// The handler awaits an extension result.
    Suspended,
}

/// Mutation operations on one state key.
#[derive(Debug, Clone, Copy, PartialEq, Eq, Structural)]
pub enum MutationOperation {
    /// Set the key to a value.
    Assign,
    /// Delete the key.
    Delete,
}

/// Log levels of handler log lines.
#[derive(Debug, Clone, Copy, PartialEq, Eq, Structural)]
pub enum LogLevel {
    /// Diagnostic detail.
    Debug,
    /// Informational.
    Info,
    /// Warning.
    Warn,
    /// Error.
    Error,
}

impl LogLevel {
    /// The level a small integer code denotes; unknown codes mean
    /// `Info`.
    pub fn from_code(level: i32) -> (r: LogLevel)
        ensures
            r == spec_level_of(level),
    {
        if level == 0 {
            LogLevel::Debug
        } else if level == 1 {
            LogLevel::Info
        } else if level == 2 {
            LogLevel::Warn
        } else if level == 3 {
            LogLevel::Error
        } else {
            LogLevel::Info
        }
    }
}

/// The level a small integer code denotes.
pub open spec fn spec_level_of(level: i32) -> LogLevel {
    if level == 0 {
        LogLevel::Debug
    } else if level == 1 {
        LogLevel::Info
    } else if level == 2 {
        LogLevel::Warn
    } else if level == 3 {
        LogLevel::Error
    } else {
        LogLevel::Info
    }
}

/// One recorded state mutation.
#[derive(Debug, PartialEq)]
pub struct StateMutation {
    /// State key.
    pub key: String,
    /// New value; `Null` for deletes.
    pub value: RuntimeValue,
    /// Operation kind.
    pub operation: MutationOperation,
}

/// Model of a state mutation.
pub struct MutationModel {
    /// State key.
    pub key: Seq<char>,
    /// New value.
    pub value: ValModel,
    /// Operation kind.
    pub operation: MutationOperation,
}

impl StateMutation {
    /// Model of this mutation.
    pub open spec fn model(self) -> MutationModel {
        MutationModel { key: self.key@, value: self.value.model(), operation: self.operation }
    }

    /// A mutation that sets `key` to `value`.
    pub fn set(key: String, value: RuntimeValue) -> (r: StateMutation)
        ensures
            r.model() == (MutationModel {
                key: key@,
                value: value.model(),
                operation: MutationOperation::Assign,
            }),
    {
        StateMutation { key, value, operation: MutationOperation::Assign }
    }

    /// A mutation that deletes `key`; the carried value is `Null`.
    pub fn delete(key: String) -> (r: StateMutation)
        ensures
            r.model() == (MutationModel {
                key: key@,
                value: ValModel::Null,
                operation: MutationOperation::Delete,
            }),
    {
        StateMutation { key, value: RuntimeValue::Null, operation: MutationOperation::Delete }
    }
}

impl Clone for StateMutation {
    /// Copy with the same model.
    fn clone(&self) -> (r: Self)
        ensures
            r.model() == self.model(),
    {
        StateMutation {
            key: self.key.clone(),
            value: self.value.clone(),
            operation: self.operation,
        }
    }
}

/// One emitted event.
#[derive(Debug, PartialEq)]
pub struct EmittedEvent {
    /// Event name.
    pub name: String,
    /// Event payload.
    pub payload: RuntimeValue,
}

/// Model of an emitted event.
pub struct EventModel {
    /// Event name.
    pub name: Seq<char>,
    /// Event payload.
    pub payload: ValModel,
}

impl EmittedEvent {
    /// Model of this event.
    pub open spec fn model(self) -> EventModel {
        EventModel { name: self.name@, payload: self.payload.model() }
    }

    /// Creates an event.
    pub fn new(name: String, payload: RuntimeValue) -> (r: EmittedEvent)
        ensures
            r.model() == (EventModel { name: name@, payload: payload.model() }),
    {
        EmittedEvent { name, payload }
    }
}

impl Clone for EmittedEvent {
    /// Copy with the same model.
    fn clone(&self) -> (r: Self)
        ensures
            r.model() == self.model(),
    {
        EmittedEvent { name: self.name.clone(), payload: self.payload.clone() }
    }
}

/// Kinds of view commands.
#[derive(Debug, Clone, Copy, PartialEq, Eq, Structural)]
pub enum ViewCommandType {
    /// Set a filter on a component.
    SetFilter,
    /// Scroll to a position.
    ScrollTo,
    /// Focus a component.
    Focus,
    /// A custom command.
    Custom,
}

/// One view command.
#[derive(Debug, PartialEq)]
pub struct ViewCommand {
    /// Command kind.
    pub command_type: ViewCommandType,
    /// Target component, if any.
    pub component_id: Option<String>,
    /// Command arguments.
    pub args: ValueMap,
}

/// Model of a view command.
pub struct ViewCommandModel {
    /// Command kind.
    pub command_type: ViewCommandType,
    /// Target component, if any.
    pub component_id: Option<Seq<char>>,
    /// Command arguments.
    pub args: Seq<(Seq<char>, ValModel)>,
}

impl ViewCommand {
    /// Model of this command.
    pub open spec fn model(self) -> ViewCommandModel {
        ViewCommandModel {
            command_type: self.command_type,
            component_id: match self.component_id {
                Some(id) => Some(id@),
                None => None,
            },
            args: self.args.model(),
        }
    }

    /// A filter command on a component.
    pub fn set_filter(component_id: String, value: RuntimeValue) -> (r: ViewCommand)
        ensures
            r.model().command_type == ViewCommandType::SetFilter,
            r.model().component_id == Some(component_id@),
            r.model().args == Seq::<(Seq<char>, ValModel)>::empty().push(
                ("value"@, value.model()),
            ),
    {
        let mut args = ValueMap::new();
        args.push("value".to_owned(), value);
        ViewCommand {
            command_type: ViewCommandType::SetFilter,
            component_id: Some(component_id),
            args,
        }
    }

    /// A scroll command on a component.
    pub fn scroll_to(component_id: String, position: RuntimeValue) -> (r: ViewCommand)
        ensures
            r.model().command_type == ViewCommandType::ScrollTo,
            r.model().component_id == Some(component_id@),
            r.model().args == Seq::<(Seq<char>, ValModel)>::empty().push(
                ("position"@, position.model()),
            ),
    {
        let mut args = ValueMap::new();
        args.push("position".to_owned(), position);
        ViewCommand {
            command_type: ViewCommandType::ScrollTo,
            component_id: Some(component_id),
            args,
        }
    }

    /// A focus command on a component.
    pub fn focus(component_id: String) -> (r: ViewCommand)
        ensures
            r.model().command_type == ViewCommandType::Focus,
            r.model().component_id == Some(component_id@),
            r.model().args.len() == 0,
    {
        ViewCommand {
            command_type: ViewCommandType::Focus,
            component_id: Some(component_id),
            args: ValueMap::new(),
        }
    }
}

impl Clone for ViewCommand {
    /// Copy with the same model.
    fn clone(&self) -> (r: Self)
        ensures
            r.model() == self.model(),
    {
        ViewCommand {
            command_type: self.command_type,
            component_id: match &self.component_id {
                Some(id) => Some(id.clone()),
                None => None,
            },
            args: self.args.clone(),
        }
    }
}

/// Suspension details surfaced to the host.
#[derive(Debug, PartialEq)]
pub struct SuspensionDetails {
    /// Unique suspension id for resuming.
    pub suspension_id: String,
    /// Extension name.
    pub extension_name: String,
    /// Method name.
    pub method: String,
    /// Method arguments.
    pub args: Vec<RuntimeValue>,
}

/// Model of a suspension.
pub struct SuspensionModel {
    /// Unique suspension id.
    pub suspension_id: Seq<char>,
    /// Extension name.
    pub extension_name: Seq<char>,
    /// Method name.
    pub method: Seq<char>,
    /// Method arguments.
    pub args: Seq<ValModel>,
}

impl SuspensionDetails {
    /// Model of these details.
    pub open spec fn model(self) -> SuspensionModel {
        SuspensionModel {
            suspension_id: self.suspension_id@,
            extension_name: self.extension_name@,
            method: self.method@,
            args: arr_model(self.args@),
        }
    }

    /// Creates suspension details.
    pub fn new(
        suspension_id: String,
        extension_name: String,
        method: String,
        args: Vec<RuntimeValue>,
    ) -> (r: SuspensionDetails)
        ensures
            r.model() == (SuspensionModel {
                suspension_id: suspension_id@,
                extension_name: extension_name@,
                method: method@,
                args: arr_model(args@),
            }),
    {
        SuspensionDetails { suspension_id, extension_name, method, args }
    }
}

impl Clone for SuspensionDetails {
    /// Copy with the same model.
    fn clone(&self) -> (r: Self)
        ensures
            r.model() == self.model(),
    {
        let n = self.args.len();
        let mut args: Vec<RuntimeValue> = Vec::new();
        let mut i: usize = 0;
        while i < n
            invariant
                i <= n,
                n == self.args@.len(),
                args@.len() == i,
                forall|j: int| 0 <= j < i ==> args@[j].model() == self.args@[j].model(),
            decreases n - i,
        {
            args.push(self.args[i].clone());
            i += 1;
        }
        let r = SuspensionDetails {
            suspension_id: self.suspension_id.clone(),
            extension_name: self.extension_name.clone(),
            method: self.method.clone(),
            args,
        };
        proof {
            assert(arr_model(r.args@) =~= arr_model(self.args@));
        }
        r
    }
}

/// The suspension an execution context holds while its handler awaits
/// an extension result.
#[derive(Debug)]
pub struct SuspensionState {
    /// Suspension id.
    pub id: String,
    /// Extension name.
    pub extension_name: String,
    /// Method name.
    pub method: String,
    /// Method arguments.
    pub args: Vec<RuntimeValue>,
}

impl SuspensionState {
    /// Model of this suspension.
    pub open spec fn model(self) -> SuspensionModel {
        SuspensionModel {
            suspension_id: self.id@,
            extension_name: self.extension_name@,
            method: self.method@,
            args: arr_model(self.args@),
        }
    }
}

/// The result a host resolves a suspension with.
#[derive(Debug, PartialEq)]
pub struct AsyncResult {
    /// Whether the extension call succeeded.
    pub success: bool,
    /// Result value, when it succeeded.
    pub value: Option<RuntimeValue>,
    /// Error message, when it failed.
    pub error: Option<String>,
}

impl AsyncResult {
    /// A successful result carrying a value.
    pub fn success(value: RuntimeValue) -> (r: AsyncResult)
        ensures
            r.success,
            match r.value {
                Some(v) => v.model() == value.model(),
                None => false,
            },
            r.error is None,
    {
        AsyncResult { success: true, value: Some(value), error: None }
    }

    /// A failed result carrying a message.
    pub fn error(message: String) -> (r: AsyncResult)
        ensures
            !r.success,
            r.value is None,
            match r.error {
                Some(m) => m@ == message@,
                None => false,
            },
    {
        AsyncResult { success: false, value: None, error: Some(message) }
    }
}

/// One captured log line.
#[derive(Debug, PartialEq)]
pub struct LogMessage {
    /// Log level.
    pub level: LogLevel,
    /// Message text.
    pub message: String,
}

impl Clone for LogMessage {
    /// Copy with the same level and text.
    fn clone(&self) -> (r: Self)
        ensures
            r.level == self.level,
            r.message@ == self.message@,
    {
        LogMessage { level: self.level, message: self.message.clone() }
    }
}

/// An extension registry: extension names with their methods.
#[derive(Debug)]
pub struct ExtensionRegistry {
    /// Extension name and allowed method names, in insertion order.
    pub entries: Vec<(String, Vec<String>)>,
}

/// Model of a registry: names with their method-name sequences.
pub open spec fn registry_model(entries: Seq<(String, Vec<String>)>) -> Seq<
    (Seq<char>, Seq<Seq<char>>),
> {
    entries.map_values(
        |p: (String, Vec<String>)| (p.0@, p.1@.map_values(|m: String| m@)),
    )
}

/// Whether a registry holds an extension.
pub open spec fn registry_has_ext(reg: Seq<(Seq<char>, Seq<Seq<char>>)>, name: Seq<char>) -> bool {
    exists|i: int| 0 <= i < reg.len() && reg[i].0 == name
}

/// Whether a registry holds a method on an extension.
pub open spec fn registry_has_method(
    reg: Seq<(Seq<char>, Seq<Seq<char>>)>,
    name: Seq<char>,
    method: Seq<char>,
) -> bool {
    exists|i: int, j: int|
        0 <= i < reg.len() && reg[i].0 == name && 0 <= j < reg[i].1.len() && reg[i].1[j]
            == method
}

impl ExtensionRegistry {
    /// Model of this registry.
    pub open spec fn model(self) -> Seq<(Seq<char>, Seq<Seq<char>>)> {
        registry_model(self.entries@)
    }

    /// An empty registry.
    pub fn new() -> (r: ExtensionRegistry)
        ensures
            r.model() =~= Seq::<(Seq<char>, Seq<Seq<char>>)>::empty(),
    {
        ExtensionRegistry { entries: Vec::new() }
    }

    /// Registers an extension with its allowed methods.
    pub fn register(&mut self, name: String, methods: Vec<String>)
        ensures
            final(self).model() =~= old(self).model().push(
                (name@, methods@.map_values(|m: String| m@)),
            ),
    {
        self.entries.push((name, methods));
    }

    /// Whether the registry holds an extension of this name.
    pub fn has_ext(&self, name: &str) -> (r: bool)
        ensures
            r == registry_has_ext(self.model(), name@),
    {
        let n = self.entries.len();
        let mut i: usize = 0;
        while i < n
            invariant
                i <= n,
                n == self.entries@.len(),
                forall|j: int| 0 <= j < i ==> self.model()[j].0 != name@,
            decreases n - i,
        {
            if str_eq(self.entries[i].0.as_str(), name) {
                assert(self.model()[i as int].0 == name@);
                return true;
            }
            i += 1;
        }
        false
    }

    /// Whether the registry holds the method on the extension.
    pub fn has_method(&self, name: &str, method: &str) -> (r: bool)
        ensures
            r == registry_has_method(self.model(), name@, method@),
    {
        let n = self.entries.len();
        let mut i: usize = 0;
        while i < n
            invariant
                i <= n,
                n == self.entries@.len(),
                forall|j: int, k: int|
                    0 <= j < i && 0 <= k < self.model()[j].1.len() ==> !(self.model()[j].0
                        == name@ && self.model()[j].1[k] == method@),
            decreases n - i,
        {
            if str_eq(self.entries[i].0.as_str(), name) {
                let mlen = self.entries[i].1.len();
                let mut j: usize = 0;
                while j < mlen
                    invariant
                        j <= mlen,
                        i < n,
                        n == self.entries@.len(),
                        mlen == self.entries@[i as int].1@.len(),
                        self.model()[i as int].0 == name@,
                        forall|k: int| 0 <= k < j ==> self.model()[i as int].1[k] != method@,
                    decreases mlen - j,
                {
                    if str_eq(self.entries[i].1[j].as_str(), method) {
                        assert(self.model()[i as int].1[j as int] == method@);
                        return true;
                    }
                    j += 1;
                }
            }
            i += 1;
        }
        false
    }

    /// The registered extension names, in order.
    pub fn names(&self) -> (r: Vec<String>)
        ensures
            r@.len() == self.model().len(),
            forall|i: int| 0 <= i < r@.len() ==> r@[i]@ == self.model()[i].0,
    {
        let n = self.entries.len();
        let mut out: Vec<String> = Vec::new();
        let mut i: usize = 0;
        while i < n
            invariant
                i <= n,
                n == self.entries@.len(),
                out@.len() == i,
                forall|j: int| 0 <= j < i ==> out@[j]@ == self.model()[j].0,
            decreases n - i,
        {
            out.push(self.entries[i].0.clone());
            i += 1;
        }
        out
    }

    /// The methods of an extension, if registered.
    pub fn methods_of(&self, name: &str) -> (r: Option<Vec<String>>)
        ensures
            match r {
                Some(ms) => exists|i: int|
                    0 <= i < self.model().len() && self.model()[i].0 == name@ && ms@.map_values(
                        |m: String| m@,
                    ) == self.model()[i].1,
                None => !registry_has_ext(self.model(), name@),
            },
    {
        let n = self.entries.len();
        let mut i: usize = 0;
        while i < n
            invariant
                i <= n,
                n == self.entries@.len(),
                forall|j: int| 0 <= j < i ==> self.model()[j].0 != name@,
            decreases n - i,
        {
            if str_eq(self.entries[i].0.as_str(), name) {
                let mlen = self.entries[i].1.len();
                let mut ms: Vec<String> = Vec::new();
                let mut j: usize = 0;
                while j < mlen
                    invariant
                        j <= mlen,
                        i < n,
                        n == self.entries@.len(),
                        mlen == self.entries@[i as int].1@.len(),
                        ms@.len() == j,
                        forall|k: int| 0 <= k < j ==> ms@[k]@ == self.model()[i as int].1[k],
                    decreases mlen - j,
                {
                    ms.push(self.entries[i].1[j].clone());
                    j += 1;
                }
                proof {
                    assert(ms@.map_values(|m: String| m@) =~= self.model()[i as int].1);
                    assert(self.model()[i as int].0 == name@);
                }
                return Some(ms);
            }
            i += 1;
        }
        None
    }
}

impl Clone for ExtensionRegistry {
    /// Copy with the same model.
    fn clone(&self) -> (r: Self)
        ensures
            r.model() == self.model(),
    {
        let n = self.entries.len();
        let mut entries: Vec<(String, Vec<String>)> = Vec::new();
        let mut i: usize = 0;
        while i < n
            invariant
                i <= n,
                n == self.entries@.len(),
                entries@.len() == i,
                forall|j: int| 0 <= j < i ==> entries@[j].0@ == self.entries@[j].0@
                    && entries@[j].1@.map_values(|m: String| m@)
                    == self.entries@[j].1@.map_values(|m: String| m@),
            decreases n - i,
        {
            let mlen = self.entries[i].1.len();
            let mut ms: Vec<String> = Vec::new();
            let mut j: usize = 0;
            while j < mlen
                invariant
                    j <= mlen,
                    i < n,
                    n == self.entries@.len(),
                    mlen == self.entries@[i as int].1@.len(),
                    ms@.len() == j,
                    forall|k: int| 0 <= k < j ==> ms@[k]@ == self.entries@[i as int].1@[k]@,
                decreases mlen - j,
            {
                ms.push(self.entries[i].1[j].clone());
                j += 1;
            }
            proof {
                assert(ms@.map_values(|m: String| m@) =~= self.entries@[i as int].1@.map_values(
                    |m: String| m@,
                ));
            }
            let pair = (self.entries[i].0.clone(), ms);
            entries.push(pair);
            i += 1;
        }
        let r = ExtensionRegistry { entries };
        proof {
            assert(r.model() =~= self.model());
        }
        r
    }
}

/// The invocation context a host hands to an execution.
#[derive(Debug)]
pub struct WasmContext {
    /// Panel id, for logging and metrics.
    pub panel_id: String,
    /// Tool or lifecycle handler name.
    pub handler_name: String,
    /// Immutable snapshot of current state.
    pub state_snapshot: ValueMap,
    /// Tool arguments; empty for lifecycle handlers.
    pub args: ValueMap,
    /// Capability tokens granted to this handler.
    pub capabilities: Vec<CapabilityToken>,
    /// Scope variables from the surrounding markup context.
    pub scope: ValueMap,
    /// Extension registry: extension names with allowed methods.
    pub extension_registry: ExtensionRegistry,
}

impl WasmContext {
    /// Creates a context with empty state, arguments, capabilities,
    /// scope and registry.
    pub fn new(panel_id: String, handler_name: String) -> (r: WasmContext)
        ensures
            r.panel_id@ == panel_id@,
            r.handler_name@ == handler_name@,
            r.state_snapshot.model().len() == 0,
            r.args.model().len() == 0,
            caps_model(r.capabilities@).len() == 0,
            r.scope.model().len() == 0,
            r.extension_registry.model().len() == 0,
    {
        WasmContext {
            panel_id,
            handler_name,
            state_snapshot: ValueMap::new(),
            args: ValueMap::new(),
            capabilities: Vec::new(),
            scope: ValueMap::new(),
            extension_registry: ExtensionRegistry::new(),
        }
    }

    /// Sets the state snapshot.
    pub fn with_state(self, state: ValueMap) -> (r: WasmContext)
        ensures
            r == (WasmContext { state_snapshot: state, ..self }),
    {
        WasmContext { state_snapshot: state, ..self }
    }

    /// Sets the arguments.
    pub fn with_args(self, args: ValueMap) -> (r: WasmContext)
        ensures
            r == (WasmContext { args, ..self }),
    {
        WasmContext { args, ..self }
    }

    /// Sets the granted capabilities.
    pub fn with_capabilities(self, caps: Vec<CapabilityToken>) -> (r: WasmContext)
        ensures
            r == (WasmContext { capabilities: caps, ..self }),
    {
        WasmContext { capabilities: caps, ..self }
    }

    /// Sets the scope variables.
    pub fn with_scope(self, scope: ValueMap) -> (r: WasmContext)
        ensures
            r == (WasmContext { scope, ..self }),
    {
        WasmContext { scope, ..self }
    }

    /// Sets the extension registry.
    pub fn with_extensions(self, ext: ExtensionRegistry) -> (r: WasmContext)
        ensures
            r == (WasmContext { extension_registry: ext, ..self }),
    {
        WasmContext { extension_registry: ext, ..self }
    }
}

/// Models of a mutation vector.
pub open spec fn mutations_model(v: Seq<StateMutation>) -> Seq<MutationModel> {
    v.map_values(|m: StateMutation| m.model())
}

/// Models of an event vector.
pub open spec fn events_model(v: Seq<EmittedEvent>) -> Seq<EventModel> {
    v.map_values(|e: EmittedEvent| e.model())
}

/// Models of a view command vector.
pub open spec fn commands_model(v: Seq<ViewCommand>) -> Seq<ViewCommandModel> {
    v.map_values(|c: ViewCommand| c.model())
}

/// Models of a log vector.
pub open spec fn logs_model(v: Seq<LogMessage>) -> Seq<(LogLevel, Seq<char>)> {
    v.map_values(|l: LogMessage| (l.level, l.message@))
}

/// The internal execution context: the invocation inputs plus the
/// accumulators host functions fill during one invocation chain.
#[derive(Debug)]
pub struct ExecutionContext {
    /// Panel id.
    pub panel_id: String,
    /// Handler name.
    pub handler_name: String,
    /// Immutable snapshot of current state.
    pub state_snapshot: ValueMap,
    /// Tool arguments.
    pub args: ValueMap,
    /// Scope variables.
    pub scope: ValueMap,
    /// Granted capabilities.
    pub capabilities: Vec<CapabilityToken>,
    /// Extension registry.
    pub extension_registry: ExtensionRegistry,
    /// Mutations recorded so far, in call order.
    pub state_mutations: Vec<StateMutation>,
    /// Events recorded so far, in call order.
    pub events: Vec<EmittedEvent>,
    /// View commands recorded so far, in call order.
    pub view_commands: Vec<ViewCommand>,
    /// Log lines recorded so far, in call order.
    pub log_messages: Vec<LogMessage>,
    /// Number of host calls made so far.
    pub host_call_count: u32,
    /// The pending suspension, if the handler is awaiting one.
    pub suspension: Option<SuspensionState>,
}

impl ExecutionContext {
    /// Builds a fresh context from the host's invocation context: the
    /// inputs carried over, every accumulator empty.
    pub fn from_wasm_context(ctx: WasmContext) -> (r: ExecutionContext)
        ensures
            r.panel_id == ctx.panel_id,
            r.handler_name == ctx.handler_name,
            r.state_snapshot == ctx.state_snapshot,
            r.args == ctx.args,
            r.scope == ctx.scope,
            r.capabilities == ctx.capabilities,
            r.extension_registry == ctx.extension_registry,
            r.state_mutations@.len() == 0,
            r.events@.len() == 0,
            r.view_commands@.len() == 0,
            r.log_messages@.len() == 0,
            r.host_call_count == 0,
            r.suspension is None,
    {
        ExecutionContext {
            panel_id: ctx.panel_id,
            handler_name: ctx.handler_name,
            state_snapshot: ctx.state_snapshot,
            args: ctx.args,
            scope: ctx.scope,
            capabilities: ctx.capabilities,
            extension_registry: ctx.extension_registry,
            state_mutations: Vec::new(),
            events: Vec::new(),
            view_commands: Vec::new(),
            log_messages: Vec::new(),
            host_call_count: 0,
            suspension: None,
        }
    }

    /// Whether a granted capability matches the required string.
    pub fn has_capability(&self, cap: &str) -> (r: bool)
        ensures
            r == spec_check(caps_model(self.capabilities@), cap@),
    {
        crate::capability::check_tokens(&self.capabilities, cap)
    }

    /// Adds one to the host call counter, clamping at the maximum, and
    /// returns the new count.
    pub fn increment_host_calls(&mut self) -> (r: u32)
        ensures
            final(self).host_call_count == if old(self).host_call_count == u32::MAX {
                u32::MAX
            } else {
                (old(self).host_call_count + 1) as u32
            },
            r == final(self).host_call_count,
            *final(self) == (ExecutionContext {
                host_call_count: final(self).host_call_count,
                ..*old(self)
            }),
    {
        self.host_call_count = self.host_call_count.saturating_add(1);
        self.host_call_count
    }

    /// Appends a state mutation.
    pub fn add_mutation(&mut self, mutation: StateMutation)
        ensures
            final(self).state_mutations@ == old(self).state_mutations@.push(mutation),
            *final(self) == (ExecutionContext {
                state_mutations: final(self).state_mutations,
                ..*old(self)
            }),
    {
        self.state_mutations.push(mutation);
    }

    /// Appends an event.
    pub fn add_event(&mut self, event: EmittedEvent)
        ensures
            final(self).events@ == old(self).events@.push(event),
            *final(self) == (ExecutionContext { events: final(self).events, ..*old(self) }),
    {
        self.events.push(event);
    }

    /// Appends a view command.
    pub fn add_view_command(&mut self, command: ViewCommand)
        ensures
            final(self).view_commands@ == old(self).view_commands@.push(command),
            *final(self) == (ExecutionContext {
                view_commands: final(self).view_commands,
                ..*old(self)
            }),
    {
        self.view_commands.push(command);
    }

    /// Appends a log line.
    pub fn add_log(&mut self, level: LogLevel, message: String)
        ensures
            final(self).log_messages@.len() == old(self).log_messages@.len() + 1,
            final(self).log_messages@.last().level == level,
            final(self).log_messages@.last().message@ == message@,
            final(self).log_messages@.subrange(0, old(self).log_messages@.len() as int) == old(
                self,
            ).log_messages@,
            *final(self) == (ExecutionContext {
                log_messages: final(self).log_messages,
                ..*old(self)
            }),
    {
        self.log_messages.push(LogMessage { level, message });
        assert(self.log_messages@.subrange(0, old(self).log_messages@.len() as int) =~= old(
            self,
        ).log_messages@);
    }
}

/// Model of a handler result's metrics-bearing fields.
pub struct ResultModel {
    /// Execution status.
    pub status: ExecutionStatus,
    /// Return value, when the handler completed.
    pub return_value: Option<ValModel>,
    /// State mutations, in call order.
    pub state_mutations: Seq<MutationModel>,
    /// Events, in call order.
    pub events: Seq<EventModel>,
    /// View commands, in call order.
    pub view_commands: Seq<ViewCommandModel>,
    /// Suspension details, when suspended.
    pub suspension: Option<SuspensionModel>,
    /// Error details, when failed.
    pub error: Option<ErrModel>,
}

/// The structured result of one handler invocation.
#[derive(Debug)]
pub struct WasmResult {
    /// Execution status.
    pub status: ExecutionStatus,
    /// Return value, when the handler completed.
    pub return_value: Option<RuntimeValue>,
    /// State mutations to apply, in call order.
    pub state_mutations: Vec<StateMutation>,
    /// Events to emit, in call order.
    pub events: Vec<EmittedEvent>,
    /// View commands to execute, in call order.
    pub view_commands: Vec<ViewCommand>,
    /// Suspension details, when suspended.
    pub suspension: Option<SuspensionDetails>,
    /// Error details, when failed.
    pub error: Option<WasmError>,
    /// Execution metrics.
    pub metrics: ExecutionMetrics,
}

impl WasmResult {
    /// Model of this result, without its metrics.
    pub open spec fn model(self) -> ResultModel {
        ResultModel {
            status: self.status,
            return_value: match self.return_value {
                Some(v) => Some(v.model()),
                None => None,
            },
            state_mutations: mutations_model(self.state_mutations@),
            events: events_model(self.events@),
            view_commands: commands_model(self.view_commands@),
            suspension: match self.suspension {
                Some(s) => Some(s.model()),
                None => None,
            },
            error: match self.error {
                Some(e) => Some(e.model()),
                None => None,
            },
        }
    }

    /// A success result with no effects.
    pub fn success(return_value: Option<RuntimeValue>, metrics: ExecutionMetrics) -> (r:
        WasmResult)
        ensures
            r.model().status == ExecutionStatus::Success,
            match (r.model().return_value, return_value) {
                (Some(a), Some(b)) => a == b.model(),
                (None, None) => true,
                _ => false,
            },
            r.model().state_mutations.len() == 0,
            r.model().events.len() == 0,
            r.model().view_commands.len() == 0,
            r.model().suspension is None,
            r.model().error is None,
            r.metrics == metrics,
    {
        WasmResult {
            status: ExecutionStatus::Success,
            return_value,
            state_mutations: Vec::new(),
            events: Vec::new(),
            view_commands: Vec::new(),
            suspension: None,
            error: None,
            metrics,
        }
    }

    /// An error result with no effects.
    pub fn error(error: WasmError, metrics: ExecutionMetrics) -> (r: WasmResult)
        ensures
            r.model().status == ExecutionStatus::Error,
            r.model().return_value is None,
            r.model().state_mutations.len() == 0,
            r.model().events.len() == 0,
            r.model().view_commands.len() == 0,
            r.model().suspension is None,
            r.model().error == Some(error.model()),
            r.metrics == metrics,
    {
        WasmResult {
            status: ExecutionStatus::Error,
            return_value: None,
            state_mutations: Vec::new(),
            events: Vec::new(),
            view_commands: Vec::new(),
            suspension: None,
            error: Some(error),
            metrics,
        }
    }

    /// A suspended result with no effects.
    pub fn suspended(suspension: SuspensionDetails, metrics: ExecutionMetrics) -> (r: WasmResult)
        ensures
            r.model().status == ExecutionStatus::Suspended,
            r.model().return_value is None,
            r.model().state_mutations.len() == 0,
            r.model().events.len() == 0,
            r.model().view_commands.len() == 0,
            r.model().suspension == Some(suspension.model()),
            r.model().error is None,
            r.metrics == metrics,
    {
        WasmResult {
            status: ExecutionStatus::Suspended,
            return_value: None,
            state_mutations: Vec::new(),
            events: Vec::new(),
            view_commands: Vec::new(),
            suspension: Some(suspension),
            error: None,
            metrics,
        }
    }

    /// Replaces the mutations.
    pub fn with_mutations(self, mutations: Vec<StateMutation>) -> (r: WasmResult)
        ensures
            r == (WasmResult { state_mutations: mutations, ..self }),
    {
        WasmResult { state_mutations: mutations, ..self }
    }

    /// Replaces the events.
    pub fn with_events(self, events: Vec<EmittedEvent>) -> (r: WasmResult)
        ensures
            r == (WasmResult { events, ..self }),
    {
        WasmResult { events, ..self }
    }

    /// Replaces the view commands.
    pub fn with_view_commands(self, commands: Vec<ViewCommand>) -> (r: WasmResult)
        ensures
            r == (WasmResult { view_commands: commands, ..self }),
    {
        WasmResult { view_commands: commands, ..self }
    }
}

} // verus!
