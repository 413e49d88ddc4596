//! Host functions callable from the guest: state access, event
//! emission, view commands, extension suspension and logging, each
//! gated by the granted capabilities and recording its effect on the
//! execution context.

use vstd::prelude::*;

use crate::capability::caps_model;
use crate::capability::spec_check;
use crate::context::EmittedEvent;
use crate::context::ExecutionContext;
use crate::context::LogLevel;
use crate::context::MutationOperation;
use crate::context::StateMutation;
use crate::context::SuspensionDetails;
use crate::context::SuspensionState;
use crate::context::ViewCommand;
use crate::context::ViewCommandType;
use crate::context::registry_has_ext;
use crate::context::registry_has_method;
use crate::error::HOST_NOT_FOUND;
use crate::error::HOST_PERMISSION_DENIED;
use crate::error::HOST_RESOURCE_LIMIT;
use crate::value::RuntimeValue;
use crate::value::ValModel;
use crate::value::ValueMap;
use crate::value::arr_model;
use crate::value::assoc_contains;
use crate::value::assoc_lookup;

verus! {

/// Result type of host functions: a value or a small error code.
pub type HostResult<T> = Result<T, i32>;

/// Whether a capability set allows reading a state key: the key's own
/// read capability or the read wildcard.
pub open spec fn caps_allow_state_read(
    caps: Seq<crate::capability::CapModel>,
    key: Seq<char>,
) -> bool {
    spec_check(caps, "state:read:"@ + key) || spec_check(caps, "state:read:*"@)
}

/// Whether a capability set allows writing a state key.
pub open spec fn caps_allow_state_write(
    caps: Seq<crate::capability::CapModel>,
    key: Seq<char>,
) -> bool {
    spec_check(caps, "state:write:"@ + key) || spec_check(caps, "state:write:*"@)
}

/// Whether a capability set allows emitting an event.
pub open spec fn caps_allow_emit(
    caps: Seq<crate::capability::CapModel>,
    name: Seq<char>,
) -> bool {
    spec_check(caps, "events:emit:"@ + name) || spec_check(caps, "events:emit:*"@)
}

/// Whether a capability set allows updating a view component.
pub open spec fn caps_allow_view(
    caps: Seq<crate::capability::CapModel>,
    id: Option<Seq<char>>,
) -> bool {
    (match id {
        Some(i) => spec_check(caps, "view:update:"@ + i),
        None => spec_check(caps, "view:update:*"@),
    }) || spec_check(caps, "view:update:*"@)
}

/// Whether a capability set allows calling an extension.
pub open spec fn caps_allow_ext(caps: Seq<crate::capability::CapModel>, name: Seq<char>) -> bool {
    spec_check(caps, "ext:"@ + name) || spec_check(caps, "ext:*"@)
}

/// Whether the grants allow reading a state key.
pub open spec fn allows_state_read(ctx: ExecutionContext, key: Seq<char>) -> bool {
    caps_allow_state_read(caps_model(ctx.capabilities@), key)
}

/// Whether the grants allow writing a state key.
pub open spec fn allows_state_write(ctx: ExecutionContext, key: Seq<char>) -> bool {
    caps_allow_state_write(caps_model(ctx.capabilities@), key)
}

/// Whether the grants allow emitting an event.
pub open spec fn allows_emit(ctx: ExecutionContext, name: Seq<char>) -> bool {
    caps_allow_emit(caps_model(ctx.capabilities@), name)
}

/// Whether the grants allow updating a view component.
pub open spec fn allows_view(ctx: ExecutionContext, id: Option<Seq<char>>) -> bool {
    caps_allow_view(caps_model(ctx.capabilities@), id)
}

/// Whether the grants allow calling an extension.
pub open spec fn allows_ext(ctx: ExecutionContext, name: Seq<char>) -> bool {
    caps_allow_ext(caps_model(ctx.capabilities@), name)
}

/// Reads a state value from the snapshot, requiring a read capability
/// for the key.
pub fn state_get(ctx: &ExecutionContext, key: &str) -> (r: HostResult<Option<RuntimeValue>>)
    ensures
        !allows_state_read(*ctx, key@) ==> r == Err::<Option<RuntimeValue>, i32>(
            HOST_PERMISSION_DENIED,
        ),
        allows_state_read(*ctx, key@) ==> match r {
            Ok(opt) => match opt {
                Some(v) => assoc_lookup(ctx.state_snapshot.model(), key@) == Some(v.model()),
                None => !assoc_contains(ctx.state_snapshot.model(), key@),
            },
            Err(_) => false,
        },
{
    let mut required = "state:read:".to_owned();
    required.append(key);
    if !ctx.has_capability(required.as_str()) && !ctx.has_capability("state:read:*") {
        return Err(HOST_PERMISSION_DENIED);
    }
    match ctx.state_snapshot.get(key) {
        Some(v) => Ok(Some(v.clone())),
        None => Ok(None),
    }
}

/// Records a set mutation, requiring a write capability for the key.
pub fn state_set(ctx: &mut ExecutionContext, key: &str, value: RuntimeValue) -> (r: HostResult<
    (),
>)
    ensures
        !allows_state_write(*old(ctx), key@) ==> r == Err::<(), i32>(HOST_PERMISSION_DENIED)
            && *final(ctx) == *old(ctx),
        allows_state_write(*old(ctx), key@) ==> r == Ok::<(), i32>(()) && final(ctx).state_mutations@.len() == old(ctx).state_mutations@.len() + 1 && final(ctx).state_mutations@.last().model() == (crate::context::MutationModel {
            key: key@,
            value: value.model(),
            operation: MutationOperation::Assign,
        }) && final(ctx).state_mutations@.drop_last() == old(ctx).state_mutations@ && *final(ctx)
            == (ExecutionContext { state_mutations: final(ctx).state_mutations, ..*old(ctx) }),
{
    let mut required = "state:write:".to_owned();
    required.append(key);
    if !ctx.has_capability(required.as_str()) && !ctx.has_capability("state:write:*") {
        return Err(HOST_PERMISSION_DENIED);
    }
    ctx.add_mutation(StateMutation::set(key.to_owned(), value));
    assert(final(ctx).state_mutations@.drop_last() =~= old(ctx).state_mutations@);
    Ok(())
}

/// Records a delete mutation, requiring a write capability for the key.
pub fn state_delete(ctx: &mut ExecutionContext, key: &str) -> (r: HostResult<()>)
    ensures
        !allows_state_write(*old(ctx), key@) ==> r == Err::<(), i32>(HOST_PERMISSION_DENIED)
            && *final(ctx) == *old(ctx),
        allows_state_write(*old(ctx), key@) ==> r == Ok::<(), i32>(()) && final(ctx).state_mutations@.len() == old(ctx).state_mutations@.len() + 1 && final(ctx).state_mutations@.last().model() == (crate::context::MutationModel {
            key: key@,
            value: ValModel::Null,
            operation: MutationOperation::Delete,
        }) && final(ctx).state_mutations@.drop_last() == old(ctx).state_mutations@ && *final(ctx)
            == (ExecutionContext { state_mutations: final(ctx).state_mutations, ..*old(ctx) }),
{
    let mut required = "state:write:".to_owned();
    required.append(key);
    if !ctx.has_capability(required.as_str()) && !ctx.has_capability("state:write:*") {
        return Err(HOST_PERMISSION_DENIED);
    }
    ctx.add_mutation(StateMutation::delete(key.to_owned()));
    assert(final(ctx).state_mutations@.drop_last() =~= old(ctx).state_mutations@);
    Ok(())
}

/// Whether a state key exists in the snapshot, requiring a read
/// capability for the key.
pub fn state_has(ctx: &ExecutionContext, key: &str) -> (r: HostResult<bool>)
    ensures
        !allows_state_read(*ctx, key@) ==> r == Err::<bool, i32>(HOST_PERMISSION_DENIED),
        allows_state_read(*ctx, key@) ==> r == Ok::<bool, i32>(
            assoc_contains(ctx.state_snapshot.model(), key@),
        ),
{
    let mut required = "state:read:".to_owned();
    required.append(key);
    if !ctx.has_capability(required.as_str()) && !ctx.has_capability("state:read:*") {
        return Err(HOST_PERMISSION_DENIED);
    }
    Ok(ctx.state_snapshot.contains_key(key))
}

/// All snapshot keys, requiring the read wildcard capability.
pub fn state_keys(ctx: &ExecutionContext) -> (r: HostResult<Vec<String>>)
    ensures
        !spec_check(caps_model(ctx.capabilities@), "state:read:*"@) ==> r == Err::<
            Vec<String>,
            i32,
        >(HOST_PERMISSION_DENIED),
        spec_check(caps_model(ctx.capabilities@), "state:read:*"@) ==> match r {
            Ok(keys) => keys@.len() == ctx.state_snapshot.model().len() && forall|i: int|
                0 <= i < keys@.len() ==> keys@[i]@ == ctx.state_snapshot.model()[i].0,
            Err(_) => false,
        },
{
    if !ctx.has_capability("state:read:*") {
        return Err(HOST_PERMISSION_DENIED);
    }
    Ok(ctx.state_snapshot.keys())
}

/// Records an event, requiring an emit capability for its name.
pub fn emit_event(ctx: &mut ExecutionContext, event_name: &str, payload: RuntimeValue) -> (r:
    HostResult<()>)
    ensures
        !allows_emit(*old(ctx), event_name@) ==> r == Err::<(), i32>(HOST_PERMISSION_DENIED)
            && *final(ctx) == *old(ctx),
        allows_emit(*old(ctx), event_name@) ==> r == Ok::<(), i32>(()) && final(ctx).events@.len() == old(ctx).events@.len() + 1 && final(ctx).events@.last().model() == (
        crate::context::EventModel { name: event_name@, payload: payload.model() }) && final(ctx).events@.drop_last() == old(ctx).events@ && *final(ctx) == (ExecutionContext {
            events: final(ctx).events,
            ..*old(ctx)
        }),
{
    let mut required = "events:emit:".to_owned();
    required.append(event_name);
    if !ctx.has_capability(required.as_str()) && !ctx.has_capability("events:emit:*") {
        return Err(HOST_PERMISSION_DENIED);
    }
    ctx.add_event(EmittedEvent::new(event_name.to_owned(), payload));
    assert(final(ctx).events@.drop_last() =~= old(ctx).events@);
    Ok(())
}

/// The payload a toast convenience event carries.
pub open spec fn spec_toast_payload(message: Seq<char>, toast_type: Option<Seq<char>>) -> Seq<
    (Seq<char>, ValModel),
> {
    Seq::<(Seq<char>, ValModel)>::empty().push(("message"@, ValModel::String(message))).push(
        (
            "type"@,
            ValModel::String(
                match toast_type {
                    Some(t) => t,
                    None => "info"@,
                },
            ),
        ),
    )
}

/// Emits a `toast` event whose payload holds the message and a type
/// defaulting to `info`; requires an emit capability for `toast`.
pub fn emit_toast(ctx: &mut ExecutionContext, message: &str, toast_type: Option<&str>) -> (r:
    HostResult<()>)
    ensures
        !allows_emit(*old(ctx), "toast"@) ==> r == Err::<(), i32>(HOST_PERMISSION_DENIED)
            && *final(ctx) == *old(ctx),
        allows_emit(*old(ctx), "toast"@) ==> r == Ok::<(), i32>(()) && final(ctx).events@.len()
            == old(ctx).events@.len() + 1 && final(ctx).events@.last().model() == (
        crate::context::EventModel {
            name: "toast"@,
            payload: ValModel::Object(
                spec_toast_payload(
                    message@,
                    match toast_type {
                        Some(t) => Some(t@),
                        None => None,
                    },
                ),
            ),
        }) && final(ctx).events@.drop_last() == old(ctx).events@ && *final(ctx) == (
        ExecutionContext { events: final(ctx).events, ..*old(ctx) }),
{
    let mut payload = ValueMap::new();
    payload.push("message".to_owned(), RuntimeValue::String(message.to_owned()));
    let type_string = match toast_type {
        Some(t) => t.to_owned(),
        None => "info".to_owned(),
    };
    payload.push("type".to_owned(), RuntimeValue::String(type_string));
    assert(payload.model() =~= spec_toast_payload(
        message@,
        match toast_type {
            Some(t) => Some(t@),
            None => None,
        },
    ));
    emit_event(ctx, "toast", RuntimeValue::Object(payload))
}

/// Records a view command, requiring an update capability for its
/// target component, or the update wildcard for an untargeted command.
pub fn view_command(ctx: &mut ExecutionContext, command: ViewCommand) -> (r: HostResult<()>)
    ensures
        !allows_view(*old(ctx), command.model().component_id) ==> r == Err::<(), i32>(
            HOST_PERMISSION_DENIED,
        ) && *final(ctx) == *old(ctx),
        allows_view(*old(ctx), command.model().component_id) ==> r == Ok::<(), i32>(()) && final(ctx).view_commands@.len() == old(ctx).view_commands@.len() + 1 && final(ctx).view_commands@.last().model() == command.model() && final(ctx).view_commands@.drop_last() == old(ctx).view_commands@ && *final(ctx) == (
        ExecutionContext { view_commands: final(ctx).view_commands, ..*old(ctx) }),
{
    let allowed = match &command.component_id {
        Some(id) => {
            let mut required = "view:update:".to_owned();
            required.append(id.as_str());
            ctx.has_capability(required.as_str()) || ctx.has_capability("view:update:*")
        },
        None => ctx.has_capability("view:update:*"),
    };
    if !allowed {
        return Err(HOST_PERMISSION_DENIED);
    }
    ctx.add_view_command(command);
    assert(final(ctx).view_commands@.drop_last() =~= old(ctx).view_commands@);
    Ok(())
}

/// Records a filter command on a component.
pub fn view_set_filter(ctx: &mut ExecutionContext, component_id: &str, value: RuntimeValue) -> (r:
    HostResult<()>)
    ensures
        !allows_view(*old(ctx), Some(component_id@)) ==> r == Err::<(), i32>(
            HOST_PERMISSION_DENIED,
        ) && *final(ctx) == *old(ctx),
        allows_view(*old(ctx), Some(component_id@)) ==> r == Ok::<(), i32>(()) && final(ctx).view_commands@.len() == old(ctx).view_commands@.len() + 1 && final(ctx).view_commands@.last().model() == (crate::context::ViewCommandModel {
            command_type: ViewCommandType::SetFilter,
            component_id: Some(component_id@),
            args: Seq::<(Seq<char>, ValModel)>::empty().push(("value"@, value.model())),
        }) && final(ctx).view_commands@.drop_last() == old(ctx).view_commands@ && *final(ctx)
            == (ExecutionContext { view_commands: final(ctx).view_commands, ..*old(ctx) }),
{
    let command = ViewCommand::set_filter(component_id.to_owned(), value);
    view_command(ctx, command)
}

/// Records a scroll command on a component.
pub fn view_scroll_to(ctx: &mut ExecutionContext, component_id: &str, position: RuntimeValue) -> (
    r: HostResult<()>)
    ensures
        !allows_view(*old(ctx), Some(component_id@)) ==> r == Err::<(), i32>(
            HOST_PERMISSION_DENIED,
        ) && *final(ctx) == *old(ctx),
        allows_view(*old(ctx), Some(component_id@)) ==> r == Ok::<(), i32>(()) && final(ctx).view_commands@.len() == old(ctx).view_commands@.len() + 1 && final(ctx).view_commands@.last().model() == (crate::context::ViewCommandModel {
            command_type: ViewCommandType::ScrollTo,
            component_id: Some(component_id@),
            args: Seq::<(Seq<char>, ValModel)>::empty().push(("position"@, position.model())),
        }) && final(ctx).view_commands@.drop_last() == old(ctx).view_commands@ && *final(ctx)
            == (ExecutionContext { view_commands: final(ctx).view_commands, ..*old(ctx) }),
{
    let command = ViewCommand::scroll_to(component_id.to_owned(), position);
    view_command(ctx, command)
}

/// Records a focus command on a component.
pub fn view_focus(ctx: &mut ExecutionContext, component_id: &str) -> (r: HostResult<()>)
    ensures
        !allows_view(*old(ctx), Some(component_id@)) ==> r == Err::<(), i32>(
            HOST_PERMISSION_DENIED,
        ) && *final(ctx) == *old(ctx),
        allows_view(*old(ctx), Some(component_id@)) ==> r == Ok::<(), i32>(()) && final(ctx).view_commands@.len() == old(ctx).view_commands@.len() + 1 && final(ctx).view_commands@.last().model() == (crate::context::ViewCommandModel {
            command_type: ViewCommandType::Focus,
            component_id: Some(component_id@),
            args: Seq::<(Seq<char>, ValModel)>::empty(),
        }) && final(ctx).view_commands@.drop_last() == old(ctx).view_commands@ && *final(ctx)
            == (ExecutionContext { view_commands: final(ctx).view_commands, ..*old(ctx) }),
{
    let command = ViewCommand::focus(component_id.to_owned());
    assert(command.model().args =~= Seq::<(Seq<char>, ValModel)>::empty());
    view_command(ctx, command)
}

/// Records a custom view command.
pub fn view_custom(ctx: &mut ExecutionContext, component_id: Option<&str>, args: ValueMap) -> (r:
    HostResult<()>)
    ensures
        !allows_view(
            *old(ctx),
            match component_id {
                Some(id) => Some(id@),
                None => None,
            },
        ) ==> r == Err::<(), i32>(HOST_PERMISSION_DENIED) && *final(ctx) == *old(ctx),
        allows_view(
            *old(ctx),
            match component_id {
                Some(id) => Some(id@),
                None => None,
            },
        ) ==> r == Ok::<(), i32>(()) && final(ctx).view_commands@.len() == old(ctx).view_commands@.len() + 1 && final(ctx).view_commands@.last().model() == (
        crate::context::ViewCommandModel {
            command_type: ViewCommandType::Custom,
            component_id: match component_id {
                Some(id) => Some(id@),
                None => None,
            },
            args: args.model(),
        }) && final(ctx).view_commands@.drop_last() == old(ctx).view_commands@ && *final(ctx)
            == (ExecutionContext { view_commands: final(ctx).view_commands, ..*old(ctx) }),
{
    let command = ViewCommand {
        command_type: ViewCommandType::Custom,
        component_id: match component_id {
            Some(id) => Some(id.to_owned()),
            None => None,
        },
        args,
    };
    view_command(ctx, command)
}

/// Relies on `uuid::Uuid::new_v4` and its hyphenated rendering: a
/// freshly generated random identifier, 36 characters long.
#[verifier::external_body]
pub(crate) fn fresh_uuid() -> (r: String)
    ensures
        r@.len() == 36,
{
    uuid::Uuid::new_v4().to_string()
}

/// Records a suspension for an extension call: the extension and
/// method must be registered and the extension capability granted.
/// The previous suspension record, if any, is replaced.
pub fn ext_suspend(
    ctx: &mut ExecutionContext,
    ext_name: &str,
    method: &str,
    args: Vec<RuntimeValue>,
) -> (r: HostResult<SuspensionDetails>)
    ensures
        !registry_has_ext(old(ctx).extension_registry.model(), ext_name@) ==> r == Err::<
            SuspensionDetails,
            i32,
        >(HOST_NOT_FOUND) && *final(ctx) == *old(ctx),
        registry_has_ext(old(ctx).extension_registry.model(), ext_name@) && !registry_has_method(
            old(ctx).extension_registry.model(),
            ext_name@,
            method@,
        ) ==> r == Err::<SuspensionDetails, i32>(HOST_NOT_FOUND) && *final(ctx) == *old(ctx),
        registry_has_method(old(ctx).extension_registry.model(), ext_name@, method@)
            && !allows_ext(*old(ctx), ext_name@) ==> r == Err::<SuspensionDetails, i32>(
            HOST_PERMISSION_DENIED,
        ) && *final(ctx) == *old(ctx),
        registry_has_method(old(ctx).extension_registry.model(), ext_name@, method@)
            && allows_ext(*old(ctx), ext_name@) ==> match r {
            Ok(details) => details.model().extension_name == ext_name@ && details.model().method
                == method@ && details.model().args == arr_model(args@)
                && details.model().suspension_id.len() == 36 && match final(ctx).suspension {
                Some(st) => st.model() == details.model(),
                None => false,
            } && *final(ctx) == (ExecutionContext {
                suspension: final(ctx).suspension,
                ..*old(ctx)
            }),
            Err(_) => false,
        },
{
    if !ctx.extension_registry.has_ext(ext_name) {
        return Err(HOST_NOT_FOUND);
    }
    if !ctx.extension_registry.has_method(ext_name, method) {
        return Err(HOST_NOT_FOUND);
    }
    let mut required = "ext:".to_owned();
    required.append(ext_name);
    if !ctx.has_capability(required.as_str()) && !ctx.has_capability("ext:*") {
        return Err(HOST_PERMISSION_DENIED);
    }
    let suspension_id = fresh_uuid();
    let n = args.len();
    let mut args_copy: Vec<RuntimeValue> = Vec::new();
    let mut i: usize = 0;
    while i < n
        invariant
            i <= n,
            n == args@.len(),
            args_copy@.len() == i,
            forall|j: int| 0 <= j < i ==> args_copy@[j].model() == args@[j].model(),
        decreases n - i,
    {
        args_copy.push(args[i].clone());
        i += 1;
    }
    proof {
        assert(arr_model(args_copy@) =~= arr_model(args@));
    }
    ctx.suspension = Some(
        SuspensionState {
            id: suspension_id.clone(),
            extension_name: ext_name.to_owned(),
            method: method.to_owned(),
            args: args_copy,
        },
    );
    Ok(SuspensionDetails::new(suspension_id, ext_name.to_owned(), method.to_owned(), args))
}

/// Whether an extension is registered; no capability is required.
pub fn ext_exists(ctx: &ExecutionContext, ext_name: &str) -> (r: HostResult<bool>)
    ensures
        r == Ok::<bool, i32>(registry_has_ext(ctx.extension_registry.model(), ext_name@)),
{
    Ok(ctx.extension_registry.has_ext(ext_name))
}

/// The methods an extension offers, or not-found for an unregistered
/// extension.
pub fn ext_methods(ctx: &ExecutionContext, ext_name: &str) -> (r: HostResult<Vec<String>>)
    ensures
        !registry_has_ext(ctx.extension_registry.model(), ext_name@) ==> r == Err::<
            Vec<String>,
            i32,
        >(HOST_NOT_FOUND),
        registry_has_ext(ctx.extension_registry.model(), ext_name@) ==> match r {
            Ok(ms) => exists|i: int|
                0 <= i < ctx.extension_registry.model().len()
                    && ctx.extension_registry.model()[i].0 == ext_name@ && ms@.map_values(
                    |m: String| m@,
                ) == ctx.extension_registry.model()[i].1,
            Err(_) => false,
        },
{
    match ctx.extension_registry.methods_of(ext_name) {
        Some(ms) => Ok(ms),
        None => Err(HOST_NOT_FOUND),
    }
}

/// All registered extension names.
pub fn ext_list(ctx: &ExecutionContext) -> (r: HostResult<Vec<String>>)
    ensures
        match r {
            Ok(names) => names@.len() == ctx.extension_registry.model().len() && forall|i: int|
                0 <= i < names@.len() ==> names@[i]@ == ctx.extension_registry.model()[i].0,
            Err(_) => false,
        },
{
    Ok(ctx.extension_registry.names())
}

/// Records a log line; logging needs no capability and always
/// succeeds.
pub fn log(ctx: &mut ExecutionContext, level: i32, message: &str) -> (r: HostResult<()>)
    ensures
        r == Ok::<(), i32>(()),
        final(ctx).log_messages@.len() == old(ctx).log_messages@.len() + 1,
        final(ctx).log_messages@.last().level == crate::context::spec_level_of(level),
        final(ctx).log_messages@.last().message@ == message@,
        final(ctx).log_messages@.subrange(0, old(ctx).log_messages@.len() as int) == old(ctx).log_messages@,
        *final(ctx) == (ExecutionContext { log_messages: final(ctx).log_messages, ..*old(ctx) }),
{
    let log_level = LogLevel::from_code(level);
    ctx.add_log(log_level, message.to_owned());
    Ok(())
}

/// Records a debug-level log line.
pub fn log_debug(ctx: &mut ExecutionContext, message: &str) -> (r: HostResult<()>)
    ensures
        r == Ok::<(), i32>(()),
        final(ctx).log_messages@.len() == old(ctx).log_messages@.len() + 1,
        final(ctx).log_messages@.last().level == LogLevel::Debug,
        final(ctx).log_messages@.last().message@ == message@,
        *final(ctx) == (ExecutionContext { log_messages: final(ctx).log_messages, ..*old(ctx) }),
{
    log(ctx, 0, message)
}

/// Records an info-level log line.
pub fn log_info(ctx: &mut ExecutionContext, message: &str) -> (r: HostResult<()>)
    ensures
        r == Ok::<(), i32>(()),
        final(ctx).log_messages@.len() == old(ctx).log_messages@.len() + 1,
        final(ctx).log_messages@.last().level == LogLevel::Info,
        final(ctx).log_messages@.last().message@ == message@,
        *final(ctx) == (ExecutionContext { log_messages: final(ctx).log_messages, ..*old(ctx) }),
{
    log(ctx, 1, message)
}

/// Records a warn-level log line.
pub fn log_warn(ctx: &mut ExecutionContext, message: &str) -> (r: HostResult<()>)
    ensures
        r == Ok::<(), i32>(()),
        final(ctx).log_messages@.len() == old(ctx).log_messages@.len() + 1,
        final(ctx).log_messages@.last().level == LogLevel::Warn,
        final(ctx).log_messages@.last().message@ == message@,
        *final(ctx) == (ExecutionContext { log_messages: final(ctx).log_messages, ..*old(ctx) }),
{
    log(ctx, 2, message)
}

/// Records an error-level log line.
pub fn log_error(ctx: &mut ExecutionContext, message: &str) -> (r: HostResult<()>)
    ensures
        r == Ok::<(), i32>(()),
        final(ctx).log_messages@.len() == old(ctx).log_messages@.len() + 1,
        final(ctx).log_messages@.last().level == LogLevel::Error,
        final(ctx).log_messages@.last().message@ == message@,
        *final(ctx) == (ExecutionContext { log_messages: final(ctx).log_messages, ..*old(ctx) }),
{
    log(ctx, 3, message)
}

/// Relies on `SystemTime::now` and `duration_since`: milliseconds
/// since the Unix epoch as the wall clock reports them, truncated to
/// 64 bits; zero when the clock stands before the epoch.
#[verifier::external_body]
pub(crate) fn wall_clock_millis() -> (r: u64) {
    match std::time::SystemTime::now().duration_since(std::time::UNIX_EPOCH) {
        Ok(d) => d.as_millis() as u64,
        Err(_) => 0,
    }
}

/// The wall-clock time in milliseconds since the Unix epoch; needs no
/// capability and always succeeds.
pub fn now() -> (r: HostResult<u64>)
    ensures
        r is Ok,
{
    Ok(wall_clock_millis())
}

/// Per-invocation host-call budget enforcement.
pub struct HostFunctions {
    /// Most host calls one invocation may make.
    pub max_host_calls: u32,
}

impl HostFunctions {
    /// Creates the budget enforcement for one limit.
    pub fn new(max_host_calls: u32) -> (r: HostFunctions)
        ensures
            r.max_host_calls == max_host_calls,
    {
        HostFunctions { max_host_calls }
    }

    /// Counts one host call against the budget: at the cap the call is
    /// refused and the count stays at the cap.
    pub fn check_host_call_limit(&self, ctx: &mut ExecutionContext) -> (r: Result<(), i32>)
        ensures
            old(ctx).host_call_count >= self.max_host_calls ==> r == Err::<(), i32>(
                HOST_RESOURCE_LIMIT,
            ) && *final(ctx) == *old(ctx),
            old(ctx).host_call_count < self.max_host_calls ==> r == Ok::<(), i32>(()) && final(ctx).host_call_count == old(ctx).host_call_count + 1 && *final(ctx) == (
            ExecutionContext { host_call_count: final(ctx).host_call_count, ..*old(ctx) }),
    {
        if ctx.host_call_count >= self.max_host_calls {
            return Err(HOST_RESOURCE_LIMIT);
        }
        let _count = ctx.increment_host_calls();
        Ok(())
    }
}

/// Descriptive metadata of a host function.
pub trait HostFunction {
    /// The function name as the guest sees it.
    fn name(&self) -> &'static str;

    /// A human-readable signature description.
    fn signature(&self) -> &'static str;
}

} // verus!
