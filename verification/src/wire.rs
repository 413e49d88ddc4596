//! The wire form of handler results: a result is folded into the
//! value model and carried by the canonical binary value encoding, so
//! one proved codec serves every boundary payload.  Folding and
//! unfolding are proved inverse, and with the value codec's round
//! trip a decoded result preserves every field.

use vstd::prelude::*;

use crate::context::EventModel;
use crate::context::ExecutionStatus;
use crate::context::MutationModel;
use crate::context::MutationOperation;
use crate::context::ResultModel;
use crate::context::SuspensionModel;
use crate::context::ViewCommandModel;
use crate::context::ViewCommandType;
use crate::error::ErrModel;
use crate::error::ErrorCode;
use crate::value::ValModel;

verus! {

/// The numeral of an execution status.
pub open spec fn status_num(s: ExecutionStatus) -> u64 {
    match s {
        ExecutionStatus::Success => 0,
        ExecutionStatus::Error => 1,
        ExecutionStatus::Suspended => 2,
    }
}

/// The execution status of a numeral.
pub open spec fn num_status(n: u64) -> Option<ExecutionStatus> {
    if n == 0 {
        Some(ExecutionStatus::Success)
    } else if n == 1 {
        Some(ExecutionStatus::Error)
    } else if n == 2 {
        Some(ExecutionStatus::Suspended)
    } else {
        None
    }
}

/// The numeral of a mutation operation.
pub open spec fn op_num(op: MutationOperation) -> u64 {
    match op {
        MutationOperation::Assign => 0,
        MutationOperation::Delete => 1,
    }
}

/// The mutation operation of a numeral.
pub open spec fn num_op(n: u64) -> Option<MutationOperation> {
    if n == 0 {
        Some(MutationOperation::Assign)
    } else if n == 1 {
        Some(MutationOperation::Delete)
    } else {
        None
    }
}

/// The numeral of a view command kind.
pub open spec fn cmd_num(c: ViewCommandType) -> u64 {
    match c {
        ViewCommandType::SetFilter => 0,
        ViewCommandType::ScrollTo => 1,
        ViewCommandType::Focus => 2,
        ViewCommandType::Custom => 3,
    }
}

/// The view command kind of a numeral.
pub open spec fn num_cmd(n: u64) -> Option<ViewCommandType> {
    if n == 0 {
        Some(ViewCommandType::SetFilter)
    } else if n == 1 {
        Some(ViewCommandType::ScrollTo)
    } else if n == 2 {
        Some(ViewCommandType::Focus)
    } else if n == 3 {
        Some(ViewCommandType::Custom)
    } else {
        None
    }
}

/// The numeral of an error code.
pub open spec fn code_num(c: ErrorCode) -> u64 {
    match c {
        ErrorCode::Timeout => 0,
        ErrorCode::MemoryLimit => 1,
        ErrorCode::PermissionDenied => 2,
        ErrorCode::ExecutionError => 3,
        ErrorCode::CompilationError => 4,
        ErrorCode::InvalidHandler => 5,
        ErrorCode::InternalError => 6,
        ErrorCode::ResourceLimit => 7,
        ErrorCode::WasmError => 8,
        ErrorCode::SerializationError => 9,
        ErrorCode::InvalidArgument => 10,
        ErrorCode::ExtensionNotFound => 11,
        ErrorCode::MethodNotFound => 12,
    }
}

/// The error code of a numeral.
pub open spec fn num_code(n: u64) -> Option<ErrorCode> {
    if n == 0 {
        Some(ErrorCode::Timeout)
    } else if n == 1 {
        Some(ErrorCode::MemoryLimit)
    } else if n == 2 {
        Some(ErrorCode::PermissionDenied)
    } else if n == 3 {
        Some(ErrorCode::ExecutionError)
    } else if n == 4 {
        Some(ErrorCode::CompilationError)
    } else if n == 5 {
        Some(ErrorCode::InvalidHandler)
    } else if n == 6 {
        Some(ErrorCode::InternalError)
    } else if n == 7 {
        Some(ErrorCode::ResourceLimit)
    } else if n == 8 {
        Some(ErrorCode::WasmError)
    } else if n == 9 {
        Some(ErrorCode::SerializationError)
    } else if n == 10 {
        Some(ErrorCode::InvalidArgument)
    } else if n == 11 {
        Some(ErrorCode::ExtensionNotFound)
    } else if n == 12 {
        Some(ErrorCode::MethodNotFound)
    } else {
        None
    }
}

/// An optional value as a zero- or one-element array.
pub open spec fn val_of_opt(o: Option<ValModel>) -> ValModel {
    match o {
        None => ValModel::Array(Seq::empty()),
        Some(v) => ValModel::Array(seq![v]),
    }
}

/// The optional value an array of at most one element denotes.
pub open spec fn opt_of_val(v: ValModel) -> Option<Option<ValModel>> {
    match v {
        ValModel::Array(s) => {
            if s.len() == 0 {
                Some(None)
            } else if s.len() == 1 {
                Some(Some(s[0]))
            } else {
                None
            }
        },
        _ => None,
    }
}

/// Folding an optional value and unfolding it yields it back.
pub proof fn lemma_opt_roundtrip(o: Option<ValModel>)
    ensures
        opt_of_val(val_of_opt(o)) == Some(o),
{
    match o {
        None => {},
        Some(v) => {
            assert(seq![v].len() == 1);
        },
    }
}

/// A mutation as a three-element array: key, value, operation.
pub open spec fn val_of_mutation(m: MutationModel) -> ValModel {
    ValModel::Array(seq![ValModel::String(m.key), m.value, ValModel::Number(op_num(m.operation))])
}

/// The mutation a three-element array denotes.
pub open spec fn mutation_of_val(v: ValModel) -> Option<MutationModel> {
    match v {
        ValModel::Array(s) => {
            if s.len() == 3 {
                match (s[0], s[2]) {
                    (ValModel::String(key), ValModel::Number(opn)) => match num_op(opn) {
                        Some(op) => Some(
                            MutationModel { key, value: s[1], operation: op },
                        ),
                        None => None,
                    },
                    _ => None,
                }
            } else {
                None
            }
        },
        _ => None,
    }
}

/// An event as a two-element array: name, payload.
pub open spec fn val_of_event(e: EventModel) -> ValModel {
    ValModel::Array(seq![ValModel::String(e.name), e.payload])
}

/// The event a two-element array denotes.
pub open spec fn event_of_val(v: ValModel) -> Option<EventModel> {
    match v {
        ValModel::Array(s) => {
            if s.len() == 2 {
                match s[0] {
                    ValModel::String(name) => Some(EventModel { name, payload: s[1] }),
                    _ => None,
                }
            } else {
                None
            }
        },
        _ => None,
    }
}

/// A view command as a three-element array: kind, optional component,
/// arguments object.
pub open spec fn val_of_command(c: ViewCommandModel) -> ValModel {
    ValModel::Array(
        seq![
            ValModel::Number(cmd_num(c.command_type)),
            val_of_opt(
                match c.component_id {
                    Some(id) => Some(ValModel::String(id)),
                    None => None,
                },
            ),
            ValModel::Object(c.args),
        ],
    )
}

/// The view command a three-element array denotes.
pub open spec fn command_of_val(v: ValModel) -> Option<ViewCommandModel> {
    match v {
        ValModel::Array(s) => {
            if s.len() == 3 {
                match (s[0], s[2]) {
                    (ValModel::Number(kn), ValModel::Object(args)) => match (
                        num_cmd(kn),
                        opt_of_val(s[1]),
                    ) {
                        (Some(kind), Some(ido)) => match ido {
                            Some(ValModel::String(id)) => Some(
                                ViewCommandModel {
                                    command_type: kind,
                                    component_id: Some(id),
                                    args,
                                },
                            ),
                            Some(_) => None,
                            None => Some(
                                ViewCommandModel {
                                    command_type: kind,
                                    component_id: None,
                                    args,
                                },
                            ),
                        },
                        _ => None,
                    },
                    _ => None,
                }
            } else {
                None
            }
        },
        _ => None,
    }
}

/// A suspension as a four-element array: id, extension, method,
/// arguments.
pub open spec fn val_of_suspension(s: SuspensionModel) -> ValModel {
    ValModel::Array(
        seq![
            ValModel::String(s.suspension_id),
            ValModel::String(s.extension_name),
            ValModel::String(s.method),
            ValModel::Array(s.args),
        ],
    )
}

/// The suspension a four-element array denotes.
pub open spec fn suspension_of_val(v: ValModel) -> Option<SuspensionModel> {
    match v {
        ValModel::Array(s) => {
            if s.len() == 4 {
                match (s[0], s[1], s[2], s[3]) {
                    (
                        ValModel::String(id),
                        ValModel::String(ext),
                        ValModel::String(method),
                        ValModel::Array(args),
                    ) => Some(
                        SuspensionModel {
                            suspension_id: id,
                            extension_name: ext,
                            method,
                            args,
                        },
                    ),
                    _ => None,
                }
            } else {
                None
            }
        },
        _ => None,
    }
}

/// An error as a five-element array: code, message, optional stack,
/// optional location, optional snippet.
pub open spec fn val_of_error(e: ErrModel) -> ValModel {
    ValModel::Array(
        seq![
            ValModel::Number(code_num(e.code)),
            ValModel::String(e.message),
            val_of_opt(
                match e.stack {
                    Some(st) => Some(ValModel::String(st)),
                    None => None,
                },
            ),
            val_of_opt(
                match e.location {
                    Some(loc) => Some(
                        ValModel::Array(
                            seq![
                                ValModel::Number(loc.line as u64),
                                ValModel::Number(loc.column as u64),
                            ],
                        ),
                    ),
                    None => None,
                },
            ),
            val_of_opt(
                match e.snippet {
                    Some((code, hl)) => Some(
                        ValModel::Array(
                            seq![ValModel::String(code), ValModel::Number(hl as u64)],
                        ),
                    ),
                    None => None,
                },
            ),
        ],
    )
}

/// The error a five-element array denotes.
pub open spec fn error_of_val(v: ValModel) -> Option<ErrModel> {
    match v {
        ValModel::Array(s) => {
            if s.len() == 5 {
                match (s[0], s[1]) {
                    (ValModel::Number(cn), ValModel::String(message)) => match (
                        num_code(cn),
                        opt_of_val(s[2]),
                        opt_of_val(s[3]),
                        opt_of_val(s[4]),
                    ) {
                        (Some(code), Some(sto), Some(loco), Some(sno)) => {
                            let stack = match sto {
                                Some(ValModel::String(st)) => Some(Some(st)),
                                Some(_) => None,
                                None => Some(None),
                            };
                            let location = match loco {
                                Some(ValModel::Array(ls)) => {
                                    if ls.len() == 2 {
                                        match (ls[0], ls[1]) {
                                            (
                                                ValModel::Number(l),
                                                ValModel::Number(c),
                                            ) => {
                                                if l <= u32::MAX && c <= u32::MAX {
                                                    Some(
                                                        Some(
                                                            crate::error::SourceLocation {
                                                                line: l as u32,
                                                                column: c as u32,
                                                            },
                                                        ),
                                                    )
                                                } else {
                                                    None
                                                }
                                            },
                                            _ => None,
                                        }
                                    } else {
                                        None
                                    }
                                },
                                Some(_) => None,
                                None => Some(None),
                            };
                            let snippet = match sno {
                                Some(ValModel::Array(ss)) => {
                                    if ss.len() == 2 {
                                        match (ss[0], ss[1]) {
                                            (
                                                ValModel::String(code_text),
                                                ValModel::Number(hl),
                                            ) => {
                                                if hl <= u32::MAX {
                                                    Some(Some((code_text, hl as u32)))
                                                } else {
                                                    None
                                                }
                                            },
                                            _ => None,
                                        }
                                    } else {
                                        None
                                    }
                                },
                                Some(_) => None,
                                None => Some(None),
                            };
                            match (stack, location, snippet) {
                                (Some(stk), Some(loc), Some(sn)) => Some(
                                    ErrModel {
                                        code,
                                        message,
                                        stack: stk,
                                        location: loc,
                                        snippet: sn,
                                    },
                                ),
                                _ => None,
                            }
                        },
                        _ => None,
                    },
                    _ => None,
                }
            } else {
                None
            }
        },
        _ => None,
    }
}

/// Model of execution metrics, for the wire form.
pub struct MetricsModel {
    /// Execution duration in microseconds.
    pub duration_us: u64,
    /// Memory used in bytes.
    pub memory_used_bytes: u64,
    /// Peak memory in bytes.
    pub memory_peak_bytes: u64,
    /// Host call counts by name.
    pub host_calls: Seq<(Seq<char>, u32)>,
    /// Approximate instruction count.
    pub instruction_count: u64,
    /// Compilation time, when a compile ran.
    pub compilation_time_us: Option<u64>,
    /// Whether the compilation cache was hit.
    pub cache_hit: bool,
}

/// The metrics model of an executable metrics value.
pub open spec fn metrics_model(m: crate::metrics::ExecutionMetrics) -> MetricsModel {
    MetricsModel {
        duration_us: m.duration_us,
        memory_used_bytes: m.memory_used_bytes,
        memory_peak_bytes: m.memory_peak_bytes,
        host_calls: crate::metrics::counts32_model(m.host_calls@),
        instruction_count: m.instruction_count,
        compilation_time_us: m.compilation_time_us,
        cache_hit: m.cache_hit,
    }
}

/// Host call counters as object entries with numeric values.
pub open spec fn vals_of_counts(s: Seq<(Seq<char>, u32)>) -> Seq<(Seq<char>, ValModel)> {
    s.map_values(|p: (Seq<char>, u32)| (p.0, ValModel::Number(p.1 as u64)))
}

/// The counters an object's entries denote.
pub open spec fn counts_of_vals(s: Seq<(Seq<char>, ValModel)>) -> Option<Seq<(Seq<char>, u32)>>
    decreases s.len(),
{
    if s.len() == 0 {
        Some(Seq::empty())
    } else {
        match s[0].1 {
            ValModel::Number(n) => {
                if n <= u32::MAX {
                    match counts_of_vals(s.drop_first()) {
                        Some(rest) => Some(seq![(s[0].0, n as u32)] + rest),
                        None => None,
                    }
                } else {
                    None
                }
            },
            _ => None,
        }
    }
}

/// Folding counters and unfolding them yields them back.
pub proof fn lemma_counts_roundtrip(s: Seq<(Seq<char>, u32)>)
    ensures
        counts_of_vals(vals_of_counts(s)) == Some(s),
    decreases s.len(),
{
    if s.len() == 0 {
        assert(vals_of_counts(s) =~= Seq::<(Seq<char>, ValModel)>::empty());
    } else {
        let vs = vals_of_counts(s);
        assert(vs[0] == (s[0].0, ValModel::Number(s[0].1 as u64)));
        assert(vs.drop_first() =~= vals_of_counts(s.drop_first()));
        lemma_counts_roundtrip(s.drop_first());
        assert(seq![(s[0].0, s[0].1)] + s.drop_first() =~= s);
    }
}

/// Metrics as a seven-element array.
pub open spec fn val_of_metrics(m: MetricsModel) -> ValModel {
    ValModel::Array(
        seq![
            ValModel::Number(m.duration_us),
            ValModel::Number(m.memory_used_bytes),
            ValModel::Number(m.memory_peak_bytes),
            ValModel::Object(vals_of_counts(m.host_calls)),
            ValModel::Number(m.instruction_count),
            val_of_opt(
                match m.compilation_time_us {
                    Some(t) => Some(ValModel::Number(t)),
                    None => None,
                },
            ),
            ValModel::Bool(m.cache_hit),
        ],
    )
}

/// The metrics a seven-element array denotes.
pub open spec fn metrics_of_val(v: ValModel) -> Option<MetricsModel> {
    match v {
        ValModel::Array(s) => {
            if s.len() == 7 {
                match (s[0], s[1], s[2], s[3], s[4], s[6]) {
                    (
                        ValModel::Number(dur),
                        ValModel::Number(used),
                        ValModel::Number(peak),
                        ValModel::Object(hc),
                        ValModel::Number(instr),
                        ValModel::Bool(hit),
                    ) => match (counts_of_vals(hc), opt_of_val(s[5])) {
                        (Some(counts), Some(cto)) => {
                            let comp = match cto {
                                Some(ValModel::Number(t)) => Some(Some(t)),
                                Some(_) => None,
                                None => Some(None),
                            };
                            match comp {
                                Some(c) => Some(
                                    MetricsModel {
                                        duration_us: dur,
                                        memory_used_bytes: used,
                                        memory_peak_bytes: peak,
                                        host_calls: counts,
                                        instruction_count: instr,
                                        compilation_time_us: c,
                                        cache_hit: hit,
                                    },
                                ),
                                None => None,
                            }
                        },
                        _ => None,
                    },
                    _ => None,
                }
            } else {
                None
            }
        },
        _ => None,
    }
}

/// A whole result as an eight-element array: status, return value,
/// mutations, events, view commands, suspension, error, metrics.
pub open spec fn val_of_result(rm: ResultModel, mm: MetricsModel) -> ValModel {
    ValModel::Array(
        seq![
            ValModel::Number(status_num(rm.status)),
            val_of_opt(rm.return_value),
            ValModel::Array(rm.state_mutations.map_values(|m: MutationModel| val_of_mutation(m))),
            ValModel::Array(rm.events.map_values(|e: EventModel| val_of_event(e))),
            ValModel::Array(
                rm.view_commands.map_values(|c: ViewCommandModel| val_of_command(c)),
            ),
            val_of_opt(
                match rm.suspension {
                    Some(s) => Some(val_of_suspension(s)),
                    None => None,
                },
            ),
            val_of_opt(
                match rm.error {
                    Some(e) => Some(val_of_error(e)),
                    None => None,
                },
            ),
            val_of_metrics(mm),
        ],
    )
}

/// Unfolds a list of folded mutations.
pub open spec fn mutations_of_vals(s: Seq<ValModel>) -> Option<Seq<MutationModel>>
    decreases s.len(),
{
    if s.len() == 0 {
        Some(Seq::empty())
    } else {
        match mutation_of_val(s[0]) {
            Some(m) => match mutations_of_vals(s.drop_first()) {
                Some(rest) => Some(seq![m] + rest),
                None => None,
            },
            None => None,
        }
    }
}

/// Unfolds a list of folded events.
pub open spec fn events_of_vals(s: Seq<ValModel>) -> Option<Seq<EventModel>>
    decreases s.len(),
{
    if s.len() == 0 {
        Some(Seq::empty())
    } else {
        match event_of_val(s[0]) {
            Some(e) => match events_of_vals(s.drop_first()) {
                Some(rest) => Some(seq![e] + rest),
                None => None,
            },
            None => None,
        }
    }
}

/// Unfolds a list of folded view commands.
pub open spec fn commands_of_vals(s: Seq<ValModel>) -> Option<Seq<ViewCommandModel>>
    decreases s.len(),
{
    if s.len() == 0 {
        Some(Seq::empty())
    } else {
        match command_of_val(s[0]) {
            Some(c) => match commands_of_vals(s.drop_first()) {
                Some(rest) => Some(seq![c] + rest),
                None => None,
            },
            None => None,
        }
    }
}

/// The result an eight-element array denotes.
pub open spec fn result_of_val(v: ValModel) -> Option<(ResultModel, MetricsModel)> {
    match v {
        ValModel::Array(s) => {
            if s.len() == 8 {
                match (s[0], s[2], s[3], s[4]) {
                    (
                        ValModel::Number(sn),
                        ValModel::Array(ms),
                        ValModel::Array(es),
                        ValModel::Array(cs),
                    ) => match (
                        num_status(sn),
                        opt_of_val(s[1]),
                        mutations_of_vals(ms),
                        events_of_vals(es),
                        commands_of_vals(cs),
                        opt_of_val(s[5]),
                        opt_of_val(s[6]),
                        metrics_of_val(s[7]),
                    ) {
                        (
                            Some(status),
                            Some(ret),
                            Some(muts),
                            Some(evs),
                            Some(cmds),
                            Some(susvo),
                            Some(errvo),
                            Some(mm),
                        ) => {
                            let sus = match susvo {
                                Some(sv) => match suspension_of_val(sv) {
                                    Some(sm) => Some(Some(sm)),
                                    None => None,
                                },
                                None => Some(None),
                            };
                            let err = match errvo {
                                Some(ev) => match error_of_val(ev) {
                                    Some(em) => Some(Some(em)),
                                    None => None,
                                },
                                None => Some(None),
                            };
                            match (sus, err) {
                                (Some(sm), Some(em)) => Some(
                                    (
                                        ResultModel {
                                            status,
                                            return_value: ret,
                                            state_mutations: muts,
                                            events: evs,
                                            view_commands: cmds,
                                            suspension: sm,
                                            error: em,
                                        },
                                        mm,
                                    ),
                                ),
                                _ => None,
                            }
                        },
                        _ => None,
                    },
                    _ => None,
                }
            } else {
                None
            }
        },
        _ => None,
    }
}

/// Unfolding a folded mutation list yields it back.
proof fn lemma_mutations_roundtrip(ms: Seq<MutationModel>)
    ensures
        mutations_of_vals(ms.map_values(|m: MutationModel| val_of_mutation(m))) == Some(ms),
    decreases ms.len(),
{
    let vs = ms.map_values(|m: MutationModel| val_of_mutation(m));
    if ms.len() == 0 {
        assert(vs =~= Seq::<ValModel>::empty());
    } else {
        assert(vs[0] == val_of_mutation(ms[0]));
        assert(mutation_of_val(val_of_mutation(ms[0])) == Some(ms[0])) by {
            let arr = seq![
                ValModel::String(ms[0].key),
                ms[0].value,
                ValModel::Number(op_num(ms[0].operation)),
            ];
            assert(arr.len() == 3);
        }
        assert(vs.drop_first() =~= ms.drop_first().map_values(
            |m: MutationModel| val_of_mutation(m),
        ));
        lemma_mutations_roundtrip(ms.drop_first());
        assert(seq![ms[0]] + ms.drop_first() =~= ms);
    }
}

/// Unfolding a folded event list yields it back.
proof fn lemma_events_roundtrip(es: Seq<EventModel>)
    ensures
        events_of_vals(es.map_values(|e: EventModel| val_of_event(e))) == Some(es),
    decreases es.len(),
{
    let vs = es.map_values(|e: EventModel| val_of_event(e));
    if es.len() == 0 {
        assert(vs =~= Seq::<ValModel>::empty());
    } else {
        assert(vs[0] == val_of_event(es[0]));
        assert(vs.drop_first() =~= es.drop_first().map_values(
            |e: EventModel| val_of_event(e),
        ));
        lemma_events_roundtrip(es.drop_first());
        assert(seq![es[0]] + es.drop_first() =~= es);
    }
}

/// Unfolding a folded command list yields it back.
proof fn lemma_commands_roundtrip(cs: Seq<ViewCommandModel>)
    ensures
        commands_of_vals(cs.map_values(|c: ViewCommandModel| val_of_command(c))) == Some(cs),
    decreases cs.len(),
{
    let vs = cs.map_values(|c: ViewCommandModel| val_of_command(c));
    if cs.len() == 0 {
        assert(vs =~= Seq::<ValModel>::empty());
    } else {
        assert(vs[0] == val_of_command(cs[0]));
        assert(command_of_val(val_of_command(cs[0])) == Some(cs[0])) by {
            lemma_opt_roundtrip(
                match cs[0].component_id {
                    Some(id) => Some(ValModel::String(id)),
                    None => None,
                },
            );
        }
        assert(vs.drop_first() =~= cs.drop_first().map_values(
            |c: ViewCommandModel| val_of_command(c),
        ));
        lemma_commands_roundtrip(cs.drop_first());
        assert(seq![cs[0]] + cs.drop_first() =~= cs);
    }
}

/// Unfolding a folded error yields it back.
proof fn lemma_error_roundtrip(e: ErrModel)
    ensures
        error_of_val(val_of_error(e)) == Some(e),
{
    lemma_opt_roundtrip(
        match e.stack {
            Some(st) => Some(ValModel::String(st)),
            None => None,
        },
    );
    lemma_opt_roundtrip(
        match e.location {
            Some(loc) => Some(
                ValModel::Array(
                    seq![
                        ValModel::Number(loc.line as u64),
                        ValModel::Number(loc.column as u64),
                    ],
                ),
            ),
            None => None,
        },
    );
    lemma_opt_roundtrip(
        match e.snippet {
            Some((code, hl)) => Some(
                ValModel::Array(seq![ValModel::String(code), ValModel::Number(hl as u64)]),
            ),
            None => None,
        },
    );
}

/// Unfolding folded metrics yields them back.
proof fn lemma_metrics_roundtrip(m: MetricsModel)
    ensures
        metrics_of_val(val_of_metrics(m)) == Some(m),
{
    lemma_counts_roundtrip(m.host_calls);
    lemma_opt_roundtrip(
        match m.compilation_time_us {
            Some(t) => Some(ValModel::Number(t)),
            None => None,
        },
    );
}

/// Round trip of the wire fold: unfolding a folded result yields every
/// field back, so the binary form of a result preserves all fields.
pub proof fn lemma_result_fold_roundtrip(rm: ResultModel, mm: MetricsModel)
    ensures
        result_of_val(val_of_result(rm, mm)) == Some((rm, mm)),
{
    lemma_opt_roundtrip(rm.return_value);
    lemma_mutations_roundtrip(rm.state_mutations);
    lemma_events_roundtrip(rm.events);
    lemma_commands_roundtrip(rm.view_commands);
    lemma_opt_roundtrip(
        match rm.suspension {
            Some(s) => Some(val_of_suspension(s)),
            None => None,
        },
    );
    lemma_opt_roundtrip(
        match rm.error {
            Some(e) => Some(val_of_error(e)),
            None => None,
        },
    );
    match rm.suspension {
        Some(s) => {
            assert(suspension_of_val(val_of_suspension(s)) == Some(s));
        },
        None => {},
    }
    match rm.error {
        Some(e) => {
            lemma_error_roundtrip(e);
        },
        None => {},
    }
    lemma_metrics_roundtrip(mm);
}

/// Round trip through the bytes: decoding an encoded result value
/// yields the result back, whenever the folded value is well formed.
pub proof fn lemma_result_bytes_roundtrip(rm: ResultModel, mm: MetricsModel)
    requires
        crate::codec::wf_model(val_of_result(rm, mm)),
    ensures
        match crate::codec::dec_value(crate::codec::enc_value(val_of_result(rm, mm))) {
            Some(p) => result_of_val(p.0) == Some((rm, mm)),
            None => false,
        },
{
    crate::codec::lemma_value_roundtrip(val_of_result(rm, mm));
    lemma_result_fold_roundtrip(rm, mm);
}

/// Folds a mutation list into its wire value.
pub fn fold_mutations(v: &Vec<crate::context::StateMutation>) -> (r: crate::value::RuntimeValue)
    ensures
        r.model() == ValModel::Array(
            crate::context::mutations_model(v@).map_values(
                |m: MutationModel| val_of_mutation(m),
            ),
        ),
{
    let n = v.len();
    let mut muts: Vec<crate::value::RuntimeValue> = Vec::new();
    let mut i: usize = 0;
    while i < n
        invariant
            i <= n,
            n == v@.len(),
            muts@.len() == i,
            forall|j: int|
                0 <= j < i ==> muts@[j].model() == val_of_mutation(
                    (#[trigger] v@[j]).model(),
                ),
        decreases n - i,
    {
        let m = &v[i];
        let mut fields: Vec<crate::value::RuntimeValue> = Vec::new();
        fields.push(crate::value::RuntimeValue::String(m.key.clone()));
        fields.push(m.value.clone());
        fields.push(
            crate::value::RuntimeValue::Number(
                match m.operation {
                    crate::context::MutationOperation::Assign => 0,
                    crate::context::MutationOperation::Delete => 1,
                },
            ),
        );
        let fv = crate::value::RuntimeValue::Array(fields);
        proof {
            assert(crate::value::arr_model(fields@) =~= seq![
                ValModel::String(m.key@),
                m.value.model(),
                ValModel::Number(op_num(m.operation)),
            ]);
        }
        muts.push(fv);
        i += 1;
    }
    let r = crate::value::RuntimeValue::Array(muts);
    proof {
        assert(crate::value::arr_model(muts@) =~= crate::context::mutations_model(
            v@,
        ).map_values(|m: MutationModel| val_of_mutation(m)));
    }
    r
}

/// Folds an event list into its wire value.
pub fn fold_events(v: &Vec<crate::context::EmittedEvent>) -> (r: crate::value::RuntimeValue)
    ensures
        r.model() == ValModel::Array(
            crate::context::events_model(v@).map_values(|e: EventModel| val_of_event(e)),
        ),
{
    let n = v.len();
    let mut evs: Vec<crate::value::RuntimeValue> = Vec::new();
    let mut i: usize = 0;
    while i < n
        invariant
            i <= n,
            n == v@.len(),
            evs@.len() == i,
            forall|j: int|
                0 <= j < i ==> evs@[j].model() == val_of_event((#[trigger] v@[j]).model()),
        decreases n - i,
    {
        let e = &v[i];
        let mut fields: Vec<crate::value::RuntimeValue> = Vec::new();
        fields.push(crate::value::RuntimeValue::String(e.name.clone()));
        fields.push(e.payload.clone());
        let fv = crate::value::RuntimeValue::Array(fields);
        proof {
            assert(crate::value::arr_model(fields@) =~= seq![
                ValModel::String(e.name@),
                e.payload.model(),
            ]);
        }
        evs.push(fv);
        i += 1;
    }
    let r = crate::value::RuntimeValue::Array(evs);
    proof {
        assert(crate::value::arr_model(evs@) =~= crate::context::events_model(v@).map_values(
            |e: EventModel| val_of_event(e),
        ));
    }
    r
}

/// Folds a view-command list into its wire value.
pub fn fold_commands(v: &Vec<crate::context::ViewCommand>) -> (r: crate::value::RuntimeValue)
    ensures
        r.model() == ValModel::Array(
            crate::context::commands_model(v@).map_values(
                |c: ViewCommandModel| val_of_command(c),
            ),
        ),
{
    let n = v.len();
    let mut cmds: Vec<crate::value::RuntimeValue> = Vec::new();
    let mut i: usize = 0;
    while i < n
        invariant
            i <= n,
            n == v@.len(),
            cmds@.len() == i,
            forall|j: int|
                0 <= j < i ==> cmds@[j].model() == val_of_command(
                    (#[trigger] v@[j]).model(),
                ),
        decreases n - i,
    {
        let c = &v[i];
        let mut fields: Vec<crate::value::RuntimeValue> = Vec::new();
        fields.push(
            crate::value::RuntimeValue::Number(
                match c.command_type {
                    crate::context::ViewCommandType::SetFilter => 0,
                    crate::context::ViewCommandType::ScrollTo => 1,
                    crate::context::ViewCommandType::Focus => 2,
                    crate::context::ViewCommandType::Custom => 3,
                },
            ),
        );
        let ido = match &c.component_id {
            Some(id) => {
                let mut items: Vec<crate::value::RuntimeValue> = Vec::new();
                items.push(crate::value::RuntimeValue::String(id.clone()));
                let r0 = crate::value::RuntimeValue::Array(items);
                proof {
                    assert(crate::value::arr_model(items@) =~= seq![
                        ValModel::String(id@),
                    ]);
                    assert(r0.model() == val_of_opt(
                        match c.model().component_id {
                            Some(id2) => Some(ValModel::String(id2)),
                            None => None,
                        },
                    ));
                }
                r0
            },
            None => {
                let items: Vec<crate::value::RuntimeValue> = Vec::new();
                let r0 = crate::value::RuntimeValue::Array(items);
                proof {
                    assert(crate::value::arr_model(items@) =~= Seq::<ValModel>::empty());
                    assert(r0.model() == val_of_opt(
                        match c.model().component_id {
                            Some(id2) => Some(ValModel::String(id2)),
                            None => None,
                        },
                    ));
                }
                r0
            },
        };
        fields.push(ido);
        fields.push(crate::value::RuntimeValue::Object(c.args.clone()));
        let fv = crate::value::RuntimeValue::Array(fields);
        proof {
            let expected = val_of_command(c.model());
            assert(expected is Array);
            assert(crate::value::arr_model(fields@) =~= expected->Array_0);
            assert(fv.model() == expected);
        }
        cmds.push(fv);
        i += 1;
    }
    let r = crate::value::RuntimeValue::Array(cmds);
    proof {
        assert(crate::value::arr_model(cmds@) =~= crate::context::commands_model(
            v@,
        ).map_values(|c: ViewCommandModel| val_of_command(c)));
    }
    r
}

/// Folds a result into its wire value.
pub fn result_to_value(res: &crate::context::WasmResult) -> (v: crate::value::RuntimeValue)
    ensures
        v.model() == val_of_result(res.model(), metrics_model(res.metrics)),
{
    let ghost rm = res.model();
    let ghost mm = metrics_model(res.metrics);

    let status = crate::value::RuntimeValue::Number(
        match res.status {
            ExecutionStatus::Success => 0,
            ExecutionStatus::Error => 1,
            ExecutionStatus::Suspended => 2,
        },
    );

    let ret = match &res.return_value {
        Some(value) => {
            let mut items: Vec<crate::value::RuntimeValue> = Vec::new();
            items.push(value.clone());
            let r = crate::value::RuntimeValue::Array(items);
            proof {
                assert(crate::value::arr_model(items@) =~= seq![value.model()]);
            }
            r
        },
        None => {
            let items: Vec<crate::value::RuntimeValue> = Vec::new();
            let r = crate::value::RuntimeValue::Array(items);
            proof {
                assert(crate::value::arr_model(items@) =~= Seq::<ValModel>::empty());
            }
            r
        },
    };
    proof {
        assert(ret.model() == val_of_opt(rm.return_value));
    }

    let muts_val = fold_mutations(&res.state_mutations);
    proof {
        assert(muts_val.model() == ValModel::Array(
            rm.state_mutations.map_values(|m: MutationModel| val_of_mutation(m)),
        ));
    }

    let evs_val = fold_events(&res.events);
    proof {
        assert(evs_val.model() == ValModel::Array(
            rm.events.map_values(|e: EventModel| val_of_event(e)),
        ));
    }

    let cmds_val = fold_commands(&res.view_commands);
    proof {
        assert(cmds_val.model() == ValModel::Array(
            rm.view_commands.map_values(|c: ViewCommandModel| val_of_command(c)),
        ));
    }

    let sus = match &res.suspension {
        Some(sd) => {
            let mut fields: Vec<crate::value::RuntimeValue> = Vec::new();
            fields.push(crate::value::RuntimeValue::String(sd.suspension_id.clone()));
            fields.push(crate::value::RuntimeValue::String(sd.extension_name.clone()));
            fields.push(crate::value::RuntimeValue::String(sd.method.clone()));
            fields.push(
                crate::value::RuntimeValue::Array(crate::instance::clone_values(&sd.args)),
            );
            let sv = crate::value::RuntimeValue::Array(fields);
            proof {
                assert(sv.model() == val_of_suspension(sd.model())) by {
                    assert(crate::value::arr_model(fields@) =~= seq![
                        ValModel::String(sd.suspension_id@),
                        ValModel::String(sd.extension_name@),
                        ValModel::String(sd.method@),
                        ValModel::Array(crate::value::arr_model(sd.args@)),
                    ]);
                }
            }
            let mut items: Vec<crate::value::RuntimeValue> = Vec::new();
            items.push(sv);
            let r = crate::value::RuntimeValue::Array(items);
            proof {
                assert(crate::value::arr_model(items@) =~= seq![
                    val_of_suspension(sd.model()),
                ]);
            }
            r
        },
        None => {
            let items: Vec<crate::value::RuntimeValue> = Vec::new();
            let r = crate::value::RuntimeValue::Array(items);
            proof {
                assert(crate::value::arr_model(items@) =~= Seq::<ValModel>::empty());
            }
            r
        },
    };
    proof {
        assert(sus.model() == val_of_opt(
            match rm.suspension {
                Some(sm) => Some(val_of_suspension(sm)),
                None => None,
            },
        ));
    }

    let err = match &res.error {
        Some(e) => {
            let ev = error_to_value(e);
            let mut items: Vec<crate::value::RuntimeValue> = Vec::new();
            items.push(ev);
            let r = crate::value::RuntimeValue::Array(items);
            proof {
                assert(crate::value::arr_model(items@) =~= seq![val_of_error(e.model())]);
            }
            r
        },
        None => {
            let items: Vec<crate::value::RuntimeValue> = Vec::new();
            let r = crate::value::RuntimeValue::Array(items);
            proof {
                assert(crate::value::arr_model(items@) =~= Seq::<ValModel>::empty());
            }
            r
        },
    };
    proof {
        assert(err.model() == val_of_opt(
            match rm.error {
                Some(em) => Some(val_of_error(em)),
                None => None,
            },
        ));
    }

    let met = metrics_to_value(&res.metrics);

    let mut top: Vec<crate::value::RuntimeValue> = Vec::new();
    top.push(status);
    top.push(ret);
    top.push(muts_val);
    top.push(evs_val);
    top.push(cmds_val);
    top.push(sus);
    top.push(err);
    top.push(met);
    let v = crate::value::RuntimeValue::Array(top);
    proof {
        assert(crate::value::arr_model(top@) =~= seq![
            ValModel::Number(status_num(rm.status)),
            val_of_opt(rm.return_value),
            ValModel::Array(rm.state_mutations.map_values(|m: MutationModel| val_of_mutation(m))),
            ValModel::Array(rm.events.map_values(|e: EventModel| val_of_event(e))),
            ValModel::Array(
                rm.view_commands.map_values(|c: ViewCommandModel| val_of_command(c)),
            ),
            val_of_opt(
                match rm.suspension {
                    Some(sm) => Some(val_of_suspension(sm)),
                    None => None,
                },
            ),
            val_of_opt(
                match rm.error {
                    Some(em) => Some(val_of_error(em)),
                    None => None,
                },
            ),
            val_of_metrics(mm),
        ]);
    }
    v
}

/// Folds an error into its wire value.
fn error_to_value(e: &crate::error::WasmError) -> (v: crate::value::RuntimeValue)
    ensures
        v.model() == val_of_error(e.model()),
{
    let mut fields: Vec<crate::value::RuntimeValue> = Vec::new();
    fields.push(
        crate::value::RuntimeValue::Number(
            match e.code {
                ErrorCode::Timeout => 0,
                ErrorCode::MemoryLimit => 1,
                ErrorCode::PermissionDenied => 2,
                ErrorCode::ExecutionError => 3,
                ErrorCode::CompilationError => 4,
                ErrorCode::InvalidHandler => 5,
                ErrorCode::InternalError => 6,
                ErrorCode::ResourceLimit => 7,
                ErrorCode::WasmError => 8,
                ErrorCode::SerializationError => 9,
                ErrorCode::InvalidArgument => 10,
                ErrorCode::ExtensionNotFound => 11,
                ErrorCode::MethodNotFound => 12,
            },
        ),
    );
    fields.push(crate::value::RuntimeValue::String(e.message.clone()));
    let stack = match &e.stack {
        Some(st) => {
            let mut items: Vec<crate::value::RuntimeValue> = Vec::new();
            items.push(crate::value::RuntimeValue::String(st.clone()));
            let r = crate::value::RuntimeValue::Array(items);
            proof {
                assert(crate::value::arr_model(items@) =~= seq![ValModel::String(st@)]);
                assert(r.model() == val_of_opt(
                    match e.model().stack {
                        Some(st2) => Some(ValModel::String(st2)),
                        None => None,
                    },
                ));
            }
            r
        },
        None => {
            let items: Vec<crate::value::RuntimeValue> = Vec::new();
            let r = crate::value::RuntimeValue::Array(items);
            proof {
                assert(crate::value::arr_model(items@) =~= Seq::<ValModel>::empty());
                assert(r.model() == val_of_opt(
                    match e.model().stack {
                        Some(st2) => Some(ValModel::String(st2)),
                        None => None,
                    },
                ));
            }
            r
        },
    };
    fields.push(stack);
    let loc = match &e.location {
        Some(l) => {
            let mut pair: Vec<crate::value::RuntimeValue> = Vec::new();
            pair.push(crate::value::RuntimeValue::Number(l.line as u64));
            pair.push(crate::value::RuntimeValue::Number(l.column as u64));
            let pv = crate::value::RuntimeValue::Array(pair);
            proof {
                assert(crate::value::arr_model(pair@) =~= seq![
                    ValModel::Number(l.line as u64),
                    ValModel::Number(l.column as u64),
                ]);
            }
            let mut items: Vec<crate::value::RuntimeValue> = Vec::new();
            items.push(pv);
            let r = crate::value::RuntimeValue::Array(items);
            proof {
                assert(crate::value::arr_model(items@) =~= seq![
                    ValModel::Array(
                        seq![
                            ValModel::Number(l.line as u64),
                            ValModel::Number(l.column as u64),
                        ],
                    ),
                ]);
                assert(r.model() == val_of_opt(
                    match e.model().location {
                        Some(l2) => Some(
                            ValModel::Array(
                                seq![
                                    ValModel::Number(l2.line as u64),
                                    ValModel::Number(l2.column as u64),
                                ],
                            ),
                        ),
                        None => None,
                    },
                ));
            }
            r
        },
        None => {
            let items: Vec<crate::value::RuntimeValue> = Vec::new();
            let r = crate::value::RuntimeValue::Array(items);
            proof {
                assert(crate::value::arr_model(items@) =~= Seq::<ValModel>::empty());
                assert(r.model() == val_of_opt(
                    match e.model().location {
                        Some(l2) => Some(
                            ValModel::Array(
                                seq![
                                    ValModel::Number(l2.line as u64),
                                    ValModel::Number(l2.column as u64),
                                ],
                            ),
                        ),
                        None => None,
                    },
                ));
            }
            r
        },
    };
    fields.push(loc);
    let sn = match &e.snippet {
        Some(snip) => {
            let mut pair: Vec<crate::value::RuntimeValue> = Vec::new();
            pair.push(crate::value::RuntimeValue::String(snip.code.clone()));
            pair.push(crate::value::RuntimeValue::Number(snip.highlight_line as u64));
            let pv = crate::value::RuntimeValue::Array(pair);
            proof {
                assert(crate::value::arr_model(pair@) =~= seq![
                    ValModel::String(snip.code@),
                    ValModel::Number(snip.highlight_line as u64),
                ]);
            }
            let mut items: Vec<crate::value::RuntimeValue> = Vec::new();
            items.push(pv);
            let r = crate::value::RuntimeValue::Array(items);
            proof {
                assert(crate::value::arr_model(items@) =~= seq![
                    ValModel::Array(
                        seq![
                            ValModel::String(snip.code@),
                            ValModel::Number(snip.highlight_line as u64),
                        ],
                    ),
                ]);
                assert(r.model() == val_of_opt(
                    match e.model().snippet {
                        Some((code2, hl2)) => Some(
                            ValModel::Array(
                                seq![ValModel::String(code2), ValModel::Number(hl2 as u64)],
                            ),
                        ),
                        None => None,
                    },
                ));
            }
            r
        },
        None => {
            let items: Vec<crate::value::RuntimeValue> = Vec::new();
            let r = crate::value::RuntimeValue::Array(items);
            proof {
                assert(crate::value::arr_model(items@) =~= Seq::<ValModel>::empty());
                assert(r.model() == val_of_opt(
                    match e.model().snippet {
                        Some((code2, hl2)) => Some(
                            ValModel::Array(
                                seq![ValModel::String(code2), ValModel::Number(hl2 as u64)],
                            ),
                        ),
                        None => None,
                    },
                ));
            }
            r
        },
    };
    fields.push(sn);
    let v = crate::value::RuntimeValue::Array(fields);
    proof {
        assert(fields@[2].model() == val_of_opt(
            match e.model().stack {
                Some(st) => Some(ValModel::String(st)),
                None => None,
            },
        ));
        assert(fields@[3].model() == val_of_opt(
            match e.model().location {
                Some(l) => Some(
                    ValModel::Array(
                        seq![
                            ValModel::Number(l.line as u64),
                            ValModel::Number(l.column as u64),
                        ],
                    ),
                ),
                None => None,
            },
        ));
        assert(fields@[4].model() == val_of_opt(
            match e.model().snippet {
                Some((code, hl)) => Some(
                    ValModel::Array(
                        seq![ValModel::String(code), ValModel::Number(hl as u64)],
                    ),
                ),
                None => None,
            },
        ));
        assert(crate::value::arr_model(fields@) =~= seq![
            ValModel::Number(code_num(e.model().code)),
            ValModel::String(e.model().message),
            val_of_opt(
                match e.model().stack {
                    Some(st) => Some(ValModel::String(st)),
                    None => None,
                },
            ),
            val_of_opt(
                match e.model().location {
                    Some(l) => Some(
                        ValModel::Array(
                            seq![
                                ValModel::Number(l.line as u64),
                                ValModel::Number(l.column as u64),
                            ],
                        ),
                    ),
                    None => None,
                },
            ),
            val_of_opt(
                match e.model().snippet {
                    Some((code, hl)) => Some(
                        ValModel::Array(
                            seq![ValModel::String(code), ValModel::Number(hl as u64)],
                        ),
                    ),
                    None => None,
                },
            ),
        ]);
        let expected = val_of_error(e.model());
        assert(expected is Array);
        assert(crate::value::arr_model(fields@) =~= expected->Array_0);
        assert(v.model() == expected);
    }
    v
}

/// Folds metrics into their wire value.
fn metrics_to_value(m: &crate::metrics::ExecutionMetrics) -> (v: crate::value::RuntimeValue)
    ensures
        v.model() == val_of_metrics(metrics_model(*m)),
{
    let mut fields: Vec<crate::value::RuntimeValue> = Vec::new();
    fields.push(crate::value::RuntimeValue::Number(m.duration_us));
    fields.push(crate::value::RuntimeValue::Number(m.memory_used_bytes));
    fields.push(crate::value::RuntimeValue::Number(m.memory_peak_bytes));
    let hn = m.host_calls.len();
    let mut entries = crate::value::ValueMap::new();
    let mut i: usize = 0;
    while i < hn
        invariant
            i <= hn,
            hn == m.host_calls@.len(),
            entries.model() == vals_of_counts(
                crate::metrics::counts32_model(m.host_calls@),
            ).take(i as int),
        decreases hn - i,
    {
        let ghost full = vals_of_counts(crate::metrics::counts32_model(m.host_calls@));
        entries.push(
            m.host_calls[i].0.clone(),
            crate::value::RuntimeValue::Number(m.host_calls[i].1 as u64),
        );
        proof {
            assert(entries.model() =~= full.take(i + 1));
        }
        i += 1;
    }
    proof {
        assert(vals_of_counts(crate::metrics::counts32_model(m.host_calls@)).take(
            hn as int,
        ) =~= vals_of_counts(crate::metrics::counts32_model(m.host_calls@)));
    }
    fields.push(crate::value::RuntimeValue::Object(entries));
    fields.push(crate::value::RuntimeValue::Number(m.instruction_count));
    let comp = match m.compilation_time_us {
        Some(t) => {
            let mut items: Vec<crate::value::RuntimeValue> = Vec::new();
            items.push(crate::value::RuntimeValue::Number(t));
            let r = crate::value::RuntimeValue::Array(items);
            proof {
                assert(crate::value::arr_model(items@) =~= seq![ValModel::Number(t)]);
            }
            r
        },
        None => {
            let items: Vec<crate::value::RuntimeValue> = Vec::new();
            let r = crate::value::RuntimeValue::Array(items);
            proof {
                assert(crate::value::arr_model(items@) =~= Seq::<ValModel>::empty());
            }
            r
        },
    };
    fields.push(comp);
    fields.push(crate::value::RuntimeValue::Bool(m.cache_hit));
    let v = crate::value::RuntimeValue::Array(fields);
    proof {
        assert(crate::value::arr_model(fields@) =~= seq![
            ValModel::Number(m.duration_us),
            ValModel::Number(m.memory_used_bytes),
            ValModel::Number(m.memory_peak_bytes),
            ValModel::Object(vals_of_counts(crate::metrics::counts32_model(m.host_calls@))),
            ValModel::Number(m.instruction_count),
            val_of_opt(
                match m.compilation_time_us {
                    Some(t) => Some(ValModel::Number(t)),
                    None => None,
                },
            ),
            ValModel::Bool(m.cache_hit),
        ]);
    }
    v
}

/// Encodes a result in the canonical binary form of its wire value.
pub fn encode_result(res: &crate::context::WasmResult) -> (r: Vec<u8>)
    ensures
        r@ == crate::codec::enc_value(val_of_result(res.model(), metrics_model(res.metrics))),
        crate::codec::wf_model(val_of_result(res.model(), metrics_model(res.metrics))),
{
    let v = result_to_value(res);
    crate::codec::encode_value(&v)
}

} // verus!
