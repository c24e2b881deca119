//! The decisions of compiling a run: which model and variant a reference selects, how the
//! Task listing shows models, and which modes a run accepts.
use vstd::prelude::*;

use crate::configuration::{
    default_parts_of, opt_view, option_for_tokens, slug, slug_parts, AxisView, ModelVariantAxis,
    ModelVariantParts, PartsView,
};
use crate::directory::{axis_map, resolved_base, resolved_parts, text_map, ModelDirectory};
use crate::error::{is_protocol, Error};
use crate::messages::{CanonicalMessage, ContentPart, MessageContent, Origin, Role};
use crate::model_config::{configured_by, ModelConfig, ModelLatency, ModelSpec};
use crate::plugin::PluginModelDescriptor;
use crate::blob::{base64_standard, BlobId};
use crate::completions::{ProjectedCompletion, Projection};
use crate::digest::sha256;
use crate::protocol::{Action, AgentRunRequest, ExecutePlanAction, UserMessage, UserMessageAction, UserView};
use vstd::utf8::encode_utf8;
use crate::runtime::{kind_key, ExecContext, McpRoute, SubagentKind, SubagentModel, SubagentModelOverride};
use crate::text::{decimal, join, lower, views};

verus! {

/// A plugin model's variant axis: its effective tiers (user overrides already folded in).
pub open spec fn plugin_axis(d: PluginModelDescriptor) -> AxisView {
    AxisView { contexts: views(d.context_options@), efforts: views(d.effort_options@) }
}

/// A plugin model's variant axis (see [`plugin_axis`]).
pub fn plugin_variant_axis(descriptor: &PluginModelDescriptor) -> (r: ModelVariantAxis)
    ensures
        r@ == plugin_axis(*descriptor),
{
    ModelVariantAxis {
        context_options: crate::text::copy_strings(&descriptor.context_options),
        effort_options: crate::text::copy_strings(&descriptor.effort_options),
    }
}

/// How a key selects a plugin model: by its exact id (no variant), or by a variant slug of
/// it, tried as given and then lowercased.
pub open spec fn plugin_match(d: PluginModelDescriptor, key: Seq<char>) -> Option<Option<PartsView>> {
    if d.id@ == key {
        Some(None)
    } else {
        match slug_parts(plugin_axis(d), d.id@, key) {
            Some(p) => Some(Some(p)),
            None => match slug_parts(plugin_axis(d), d.id@, lower(key)) {
                Some(p) => Some(Some(p)),
                None => None,
            },
        }
    }
}

/// The view of optional variant parts.
pub open spec fn parts_view(o: Option<ModelVariantParts>) -> Option<PartsView> {
    match o {
        Some(p) => Some(p@),
        None => None,
    }
}

/// Resolves a plugin model by exact id or variant slug: the first model the key selects,
/// with its axis and the variant the key names.
pub fn resolve_plugin_model<'m>(models: &'m [PluginModelDescriptor], key: &str) -> (r: Option<
    (&'m PluginModelDescriptor, ModelVariantAxis, Option<ModelVariantParts>),
>)
    ensures
        match r {
            Some((d, axis, parts)) => exists|i: int|
                0 <= i < models@.len() && d == &models@[i] && axis@ == plugin_axis(models@[i])
                    && plugin_match(models@[i], key@) == Some(parts_view(parts)) && forall|j: int|
                    0 <= j < i ==> plugin_match(#[trigger] models@[j], key@) is None,
            None => forall|i: int|
                0 <= i < models@.len() ==> plugin_match(#[trigger] models@[i], key@) is None,
        },
{
    let lowered = crate::text::to_lower(key);
    let mut i: usize = 0;
    while i < models.len()
        invariant
            i <= models.len(),
            lowered@ == lower(key@),
            forall|j: int| 0 <= j < i ==> plugin_match(#[trigger] models@[j], key@) is None,
        decreases models.len() - i,
    {
        let descriptor = &models[i];
        let axis = plugin_variant_axis(descriptor);
        if crate::text::str_eq(descriptor.id.as_str(), key) {
            return Some((descriptor, axis, None));
        }
        let parts = match axis.parse_slug(descriptor.id.as_str(), key) {
            Some(p) => Some(p),
            None => axis.parse_slug(descriptor.id.as_str(), lowered.as_str()),
        };
        match parts {
            Some(p) => {
                return Some((descriptor, axis, Some(p)));
            },
            None => {},
        }
        i = i + 1;
    }
    None
}

/// The variant slug a subagent inherits from the parent's selection: its context window on
/// the axis, its effort (`none` when reasoning is explicitly off) when the axis has efforts,
/// and fast when the parent is fast. None without a window, or without an effort on an axis
/// that needs one.
pub open spec fn variant_id(a: AxisView, base: Seq<char>, selected: ModelSpec) -> Option<Seq<char>> {
    match selected.context_window_tokens {
        None => None,
        Some(t) => {
            let context = option_for_tokens(a, t);
            let fast = selected.latency == ModelLatency::Fast;
            if a.efforts.len() == 0 {
                Some(slug(a, base, PartsView { context, effort: None, fast }))
            } else if selected.reasoning.explicitly_disabled {
                Some(slug(a, base, PartsView { context, effort: Some("none"@), fast }))
            } else {
                match opt_view(selected.reasoning.effort) {
                    Some(e) => Some(slug(a, base, PartsView { context, effort: Some(e), fast })),
                    None => None,
                }
            }
        },
    }
}

/// The variant slug a subagent inherits (see [`variant_id`]).
pub fn model_variant_id(axis: &ModelVariantAxis, base: &str, selected: &ModelSpec) -> (r: Option<
    String,
>)
    ensures
        opt_view(r) == variant_id(axis@, base@, *selected),
{
    let tokens = match selected.context_window_tokens {
        Some(t) => t,
        None => {
            return None;
        },
    };
    let context = match axis.context_option_for_tokens(tokens) {
        Some(c) => c,
        None => {
            return None;
        },
    };
    let effort = if axis.effort_options.len() == 0 {
        None
    } else if selected.reasoning.explicitly_disabled {
        Some(crate::text::copy("none"))
    } else {
        match &selected.reasoning.effort {
            Some(e) => Some(crate::text::copy(e.as_str())),
            None => {
                return None;
            },
        }
    };
    let fast = match selected.latency {
        ModelLatency::Fast => true,
        ModelLatency::Standard => false,
    };
    Some(axis.bake_slug(base, &ModelVariantParts { context, effort, fast }))
}

/// Applies a variant's tiers to a request: its context when it names a token count; its
/// effort, where `none` and `off` switch reasoning off explicitly; fast when selected.
pub fn apply_variant_parts(model: &mut ModelSpec, parts: ModelVariantParts)
    ensures
        parts_applied(*old(model), parts@, *final(model)),
{
    match crate::tokens::parse_token_count(parts.context.as_str()) {
        Some(t) => {
            model.context_window_tokens = Some(t);
        },
        None => {},
    }
    match parts.effort {
        Some(effort) => {
            let off = crate::text::str_eq(effort.as_str(), "none") || crate::text::str_eq(
                effort.as_str(),
                "off",
            );
            model.reasoning.explicitly_disabled = off;
            model.reasoning.enabled = !off;
            model.reasoning.effort = if off {
                None
            } else {
                Some(effort)
            };
        },
        None => {},
    }
    if parts.fast {
        model.latency = ModelLatency::Fast;
    }
}

/// A Task listing row: the display name, then the effort and context axes that are not
/// empty.
pub open spec fn subagent_line(name: Seq<char>, efforts: Seq<Seq<char>>, contexts: Seq<Seq<char>>) -> Seq<
    char,
> {
    let segments = (if efforts.len() > 0 {
        seq!["reasoning: "@ + join(efforts, ", "@)]
    } else {
        Seq::empty()
    }) + (if contexts.len() > 0 {
        seq!["context: "@ + join(contexts, ", "@)]
    } else {
        Seq::empty()
    });
    if segments.len() == 0 {
        "- "@ + name
    } else {
        "- "@ + name + " \u{2014} "@ + join(segments, "; "@)
    }
}

/// A Task listing row (see [`subagent_line`]); shared by configured and plugin models.
pub fn format_subagent_model_line(
    display_name: &str,
    effort_options: &Vec<String>,
    context_options: &Vec<String>,
) -> (r: String)
    ensures
        r@ == subagent_line(display_name@, views(effort_options@), views(context_options@)),
{
    let mut segments: Vec<String> = Vec::new();
    if effort_options.len() > 0 {
        let mut s = crate::text::copy("reasoning: ");
        let joined = crate::text::join_strs(effort_options, ", ");
        crate::text::push_str(&mut s, joined.as_str());
        segments.push(s);
    }
    if context_options.len() > 0 {
        let mut s = crate::text::copy("context: ");
        let joined = crate::text::join_strs(context_options, ", ");
        crate::text::push_str(&mut s, joined.as_str());
        segments.push(s);
    }
    let ghost expected = (if views(effort_options@).len() > 0 {
        seq!["reasoning: "@ + join(views(effort_options@), ", "@)]
    } else {
        Seq::<Seq<char>>::empty()
    }) + (if views(context_options@).len() > 0 {
        seq!["context: "@ + join(views(context_options@), ", "@)]
    } else {
        Seq::<Seq<char>>::empty()
    });
    assert(views(segments@) == expected);
    let mut r = crate::text::copy("- ");
    crate::text::push_str(&mut r, display_name);
    if segments.len() > 0 {
        crate::text::push_str(&mut r, " \u{2014} ");
        let joined = crate::text::join_strs(&segments, "; ");
        crate::text::push_str(&mut r, joined.as_str());
    }
    r
}

/// The Task listing row of a configured model; its hash is not shown.
pub fn format_available_subagent_model(model: &ModelConfig) -> (r: String)
    ensures
        r@ == subagent_line(
            model.display_name@,
            views(model.effort_options@),
            views(model.context_options@),
        ),
{
    format_subagent_model_line(
        model.display_name.as_str(),
        &model.effort_options,
        &model.context_options,
    )
}

/// The slug of the model a user picked for subagents in settings: the reference resolved in
/// the directory; unknown models pass through unchanged; otherwise its named variant (or
/// the axis default; the base key without one), with the spec's context window, its effort
/// (ASCII-lowercased) when the axis offers it, and fast when either selects it.
pub open spec fn override_slug(spec: ModelSpec, aliases: Map<Seq<char>, Seq<char>>, variants: Map<
    Seq<char>,
    AxisView,
>) -> Seq<char> {
    let base = resolved_base(aliases, spec.model_id@);
    let parts = resolved_parts(variants, base, spec.model_id@);
    if !variants.contains_key(base) {
        spec.model_id@
    } else {
        let a = variants[base];
        let chosen = match parts {
            Some(p) => Some(p),
            None => default_parts_of(a),
        };
        match chosen {
            None => base,
            Some(p) => {
                let context = match spec.context_window_tokens {
                    Some(t) => option_for_tokens(a, t),
                    None => p.context,
                };
                let effort = if a.efforts.len() > 0 && spec.reasoning.effort is Some && a.efforts.contains(
                    lower(opt_view(spec.reasoning.effort)->Some_0),
                ) {
                    Some(lower(opt_view(spec.reasoning.effort)->Some_0))
                } else {
                    p.effort
                };
                slug(
                    a,
                    base,
                    PartsView {
                        context,
                        effort,
                        fast: p.fast || spec.latency == ModelLatency::Fast,
                    },
                )
            },
        }
    }
}

/// The slug of the model a user picked for subagents (see [`override_slug`]).
pub fn override_model_slug(spec: &ModelSpec, directory: &ModelDirectory) -> (r: String)
    ensures
        r@ == override_slug(*spec, text_map(directory.aliases@), axis_map(directory.variants@)),
{
    let (base, parts) = directory.resolve(spec.model_id.as_str());
    let axis = match directory.variants.get(base.as_str()) {
        Some(axis) => axis,
        None => {
            return crate::text::copy(spec.model_id.as_str());
        },
    };
    let chosen = match parts {
        Some(p) => Some(p),
        None => axis.default_parts(),
    };
    let mut effective = match chosen {
        Some(p) => p,
        None => {
            return base;
        },
    };
    match spec.context_window_tokens {
        Some(tokens) => match axis.context_option_for_tokens(tokens) {
            Some(option) => {
                effective.context = option;
            },
            None => {},
        },
        None => {},
    }
    if axis.effort_options.len() > 0 {
        match &spec.reasoning.effort {
            Some(effort) => {
                let effort = crate::text::to_lower(effort.as_str());
                if crate::text::contains_str(&axis.effort_options, effort.as_str()) {
                    effective.effort = Some(effort);
                }
            },
            None => {},
        }
    }
    let fast = match spec.latency {
        ModelLatency::Fast => true,
        ModelLatency::Standard => false,
    };
    effective.fast = effective.fast || fast;
    axis.bake_slug(base.as_str(), &effective)
}

/// Whether a settled subagent model is what an override asks for: an explicit model becomes
/// its slug in the run's directory (see [`override_slug`]).
pub open spec fn settles(m: SubagentModel, o: SubagentModelOverride, directory: ModelDirectory) -> bool {
    match o {
        SubagentModelOverride::Explicit(spec) => m matches SubagentModel::Model(s) && s@ == override_slug(
            spec,
            text_map(directory.aliases@),
            axis_map(directory.variants@),
        ),
        SubagentModelOverride::Inherit => m is Inherit,
        SubagentModelOverride::Disabled => m is Disabled,
    }
}

/// The last override of the subagent kind with the key `key`.
pub open spec fn last_override(overrides: Seq<(SubagentKind, SubagentModelOverride)>, key: Seq<char>) -> Option<
    SubagentModelOverride,
>
    decreases overrides.len(),
{
    if overrides.len() == 0 {
        None
    } else if kind_key(overrides.last().0) == key {
        Some(overrides.last().1)
    } else {
        last_override(overrides.drop_last(), key)
    }
}

/// The tool context of a run: its conversation and the root of its conversation group, the
/// model subagents inherit, the subagent models of the settings (the last override of a kind
/// wins), whether it may start subagents (not when it is a subagent itself), and what the
/// client's request context gives.
pub fn exec_context(
    request: &AgentRunRequest,
    conversation_id: &str,
    model_id: &str,
    inherited_model_variant: Option<String>,
    directory: &ModelDirectory,
    overrides: &Vec<(SubagentKind, SubagentModelOverride)>,
    terminals_folder: Option<String>,
    admin_command_denylist: Vec<String>,
    mcp_routes: Vec<((String, String), McpRoute)>,
) -> (r: ExecContext)
    ensures
        r.conversation_id@ == conversation_id@,
        r.root_conversation_id@ == (match request.conversation_group_id {
            Some(group) => group@,
            None => conversation_id@,
        }),
        r.default_subagent_model@ == model_id@,
        r.default_subagent_model_variant == inherited_model_variant,
        r.allow_subagents == request.subagent_type_name is None,
        r.terminals_folder@ == (match terminals_folder {
            Some(folder) => folder@,
            None => Seq::<char>::empty(),
        }),
        r.admin_command_denylist == admin_command_denylist,
        r.mcp_routes == mcp_routes,
        r.model_aliases@ == Map::<Seq<char>, String>::empty(),
        r.model_variant_defaults@ == Map::<Seq<char>, (String, String)>::empty(),
        forall|k: Seq<char>|
            #[trigger] r.subagent_models@.contains_key(k) == last_override(overrides@, k) is Some,
        forall|k: Seq<char>|
            #[trigger] r.subagent_models@.contains_key(k) ==> settles(
                r.subagent_models@[k],
                last_override(overrides@, k)->Some_0,
                *directory,
            ),
{
    let mut models: vstd::hash_map::StringHashMap<SubagentModel> = vstd::hash_map::StringHashMap::new();
    let mut i: usize = 0;
    while i < overrides.len()
        invariant
            i <= overrides@.len(),
            forall|k: Seq<char>|
                #[trigger] models@.contains_key(k) == last_override(overrides@.take(i as int), k) is Some,
            forall|k: Seq<char>|
                #[trigger] models@.contains_key(k) ==> settles(
                    models@[k],
                    last_override(overrides@.take(i as int), k)->Some_0,
                    *directory,
                ),
        decreases overrides@.len() - i,
    {
        assert(overrides@.take(i + 1).drop_last() =~= overrides@.take(i as int));
        let (kind, setting) = &overrides[i];
        let key = match kind {
            SubagentKind::GeneralPurpose => crate::text::copy("generalPurpose"),
            SubagentKind::Named(n) => crate::text::copy(n.as_str()),
        };
        proof {
            reveal_strlit("generalPurpose");
        }
        let model = match setting {
            SubagentModelOverride::Explicit(spec) => SubagentModel::Model(override_model_slug(spec, directory)),
            SubagentModelOverride::Inherit => SubagentModel::Inherit,
            SubagentModelOverride::Disabled => SubagentModel::Disabled,
        };
        models.insert(key, model);
        i = i + 1;
    }
    assert(overrides@.take(overrides@.len() as int) =~= overrides@);
    let root = match &request.conversation_group_id {
        Some(group) => crate::text::copy(group.as_str()),
        None => crate::text::copy(conversation_id),
    };
    ExecContext {
        conversation_id: crate::text::copy(conversation_id),
        root_conversation_id: root,
        default_subagent_model: crate::text::copy(model_id),
        default_subagent_model_variant: inherited_model_variant,
        model_aliases: vstd::hash_map::StringHashMap::new(),
        model_variant_defaults: vstd::hash_map::StringHashMap::new(),
        subagent_models: models,
        allow_subagents: request.subagent_type_name.is_none(),
        terminals_folder: match terminals_folder {
            Some(folder) => folder,
            None => String::new(),
        },
        admin_command_denylist,
        mcp_routes,
    }
}

/// How a run begins: compacting the conversation, starting a turn, or resuming the pending
/// one (with its pending tool round, if any).
pub enum RunAction {
    Compact,
    Start,
    Resume { pending_tool_round: Option<String> },
}

/// How a run begins: a compaction compacts, a new turn starts, anything else resumes.
pub fn run_action(compacting: bool, starts_turn: bool, pending_tool_round: Option<String>) -> (r:
    RunAction)
    ensures
        compacting ==> r is Compact,
        !compacting && starts_turn ==> r is Start,
        !compacting && !starts_turn ==> r == (RunAction::Resume { pending_tool_round }),
{
    if compacting {
        RunAction::Compact
    } else if starts_turn {
        RunAction::Start
    } else {
        RunAction::Resume { pending_tool_round }
    }
}

/// The error for a state with more than one pending assistant message.
pub open spec fn many_pending_message(n: nat) -> Seq<char> {
    "Cursor resume contains "@ + decimal(n) + " pending assistant messages"@
}

/// The pending tool round a resumed run continues: none for a new turn or a compaction, or
/// when nothing is pending; the one pending entry; more than one is refused.
pub fn pending_tool_round_entry<'a>(starts_turn: bool, compacting: bool, pending: &'a [String]) -> (r:
    Result<Option<&'a String>, Error>)
    ensures
        starts_turn || compacting ==> r matches Ok(None),
        !starts_turn && !compacting && pending@.len() == 0 ==> r matches Ok(None),
        !starts_turn && !compacting && pending@.len() == 1 ==> (r matches Ok(Some(entry)) && *entry
            == pending@[0]),
        !starts_turn && !compacting && pending@.len() > 1 ==> (r matches Err(e) && is_protocol(
            e,
            many_pending_message(pending@.len()),
        )),
{
    if starts_turn || compacting {
        return Ok(None);
    }
    if pending.len() == 0 {
        Ok(None)
    } else if pending.len() == 1 {
        Ok(Some(&pending[0]))
    } else {
        let count = crate::text::decimal_string(pending.len() as u64);
        let mut m = crate::text::copy("Cursor resume contains ");
        crate::text::push_str(&mut m, count.as_str());
        crate::text::push_str(&mut m, " pending assistant messages");
        Err(Error::Protocol(m))
    }
}

/// The mode a run's checkpoint is compiled in: a subagent's own mode for a subagent request,
/// else the request's protocol mode (see [`mode_of`]).
pub fn checkpoint_mode(request: &AgentRunRequest, mode: i32) -> (r: Result<Mode, Error>)
    ensures
        request.subagent_type_name is Some ==> r matches Ok(Mode::Subagent),
        request.subagent_type_name is None ==> match (r, mode_of(mode)) {
            (Ok(m), Ok(n)) => m == n,
            (Err(e), Err(m)) => is_protocol(e, m),
            _ => false,
        },
{
    if request.subagent_type_name.is_some() {
        Ok(Mode::Subagent)
    } else {
        mode_from_proto(mode)
    }
}

/// Whether the settings disable every subagent kind they name (and name at least one): the
/// prompt then omits the orchestration tools.
pub fn subagents_disabled(overrides: &Vec<(SubagentKind, SubagentModelOverride)>) -> (r: bool)
    ensures
        r == (overrides@.len() > 0 && forall|i: int|
            0 <= i < overrides@.len() ==> (#[trigger] overrides@[i]).1 is Disabled),
{
    if overrides.len() == 0 {
        return false;
    }
    let mut i: usize = 0;
    while i < overrides.len()
        invariant
            i <= overrides@.len(),
            forall|j: int| 0 <= j < i ==> (#[trigger] overrides@[j]).1 is Disabled,
        decreases overrides@.len() - i,
    {
        match &overrides[i].1 {
            SubagentModelOverride::Disabled => {},
            _ => {
                return false;
            },
        }
        i = i + 1;
    }
    true
}

/// The messages without system prompt roots, in order.
pub open spec fn without_roots(messages: Seq<CanonicalMessage>) -> Seq<CanonicalMessage>
    decreases messages.len(),
{
    if messages.len() == 0 {
        messages
    } else if is_prompt_root(messages.last()) {
        without_roots(messages.drop_last())
    } else {
        without_roots(messages.drop_last()).push(messages.last())
    }
}

/// Restored history without its system prompt roots (the next run compiles its own), in order.
pub fn without_prompt_roots(messages: Vec<CanonicalMessage>) -> (r: Vec<CanonicalMessage>)
    ensures
        r@ == without_roots(messages@),
{
    let ghost given = messages@;
    let mut rest = messages;
    let mut kept: Vec<CanonicalMessage> = Vec::new();
    let mut k: usize = 0;
    assert(given.skip(0) =~= given);
    assert(given.len() == rest.len());
    while rest.len() > 0
        invariant
            given.len() <= usize::MAX,
            k + rest@.len() == given.len(),
            rest@ == given.skip(k as int),
            kept@ == without_roots(given.take(k as int)),
        decreases rest@.len(),
    {
        let message = rest.remove(0);
        assert(message == given[k as int]);
        assert(rest@ =~= given.skip(k as int + 1));
        assert(given.take(k + 1).drop_last() =~= given.take(k as int));
        let root = match (&message.role, &message.origin) {
            (Role::System, Origin::Prompt) => true,
            _ => false,
        };
        if !root {
            kept.push(message);
        }
        k = k + 1;
    }
    assert(given.take(k as int) =~= given);
    kept
}

/// The user message and the event a runtime message is compiled from: both or neither; an
/// action with only one of them is refused.
pub fn runtime_event_parts<'a>(turn_user: &'a Option<UserMessage>, event_id: &'a Option<String>) -> (r:
    Result<Option<(&'a UserMessage, &'a String)>, Error>)
    ensures
        match (turn_user, event_id) {
            (Some(user), Some(event)) => r matches Ok(Some((u, e))) && *u == *user && *e == *event,
            (None, None) => r matches Ok(None),
            _ => r matches Err(e) && is_protocol(e, "Cursor action has an incomplete runtime event"@),
        },
{
    match (turn_user, event_id) {
        (Some(user), Some(event)) => Ok(Some((user, event))),
        (None, None) => Ok(None),
        _ => Err(crate::error::protocol_message("Cursor action has an incomplete runtime event")),
    }
}

/// `new` is the request `old` with the variant `p` applied: its context when it names a token
/// count; its effort, where `none` and `off` switch reasoning off explicitly; fast when
/// selected.
pub open spec fn parts_applied(old: ModelSpec, p: PartsView, new: ModelSpec) -> bool {
    &&& new.model_id == old.model_id
    &&& new.display_name == old.display_name
    &&& new.context_window_tokens == match crate::tokens::token_count(p.context) {
        Some(t) => Some(t),
        None => old.context_window_tokens,
    }
    &&& match p.effort {
        Some(e) => {
            let off = e == "none"@ || e == "off"@;
            &&& new.reasoning.explicitly_disabled == off
            &&& new.reasoning.enabled == !off
            &&& opt_view(new.reasoning.effort) == (if off {
                None
            } else {
                Some(e)
            })
        },
        None => new.reasoning == old.reasoning,
    }
    &&& new.latency == (if p.fast {
        ModelLatency::Fast
    } else {
        old.latency
    })
    &&& new.max_output_tokens == old.max_output_tokens
    &&& new.supports_image_generation == old.supports_image_generation
    &&& new.extra_params == old.extra_params
}

/// `new` is the request `old` selecting the model `id` instead.
pub open spec fn renamed(old: ModelSpec, new: ModelSpec, id: Seq<char>) -> bool {
    &&& new.model_id@ == id
    &&& new.display_name == old.display_name
    &&& new.reasoning == old.reasoning
    &&& new.latency == old.latency
    &&& new.max_output_tokens == old.max_output_tokens
    &&& new.context_window_tokens == old.context_window_tokens
    &&& new.supports_image_generation == old.supports_image_generation
    &&& new.extra_params == old.extra_params
}

/// The variant axes of a configured model (see [`ModelConfig::variant_axis`]).
pub open spec fn config_axis(c: ModelConfig) -> AxisView {
    AxisView {
        contexts: crate::model_config::axis_contexts(views(c.context_options@), c.context_window_tokens),
        efforts: views(c.effort_options@),
    }
}

/// `r` is the request `model` resolved on the configured model `c`: selected by its hash, with
/// the configuration applied, then the variant that the requested id names, if any.
pub open spec fn resolved_on_config(model: ModelSpec, c: ModelConfig, r: ModelSpec) -> bool {
    exists|m0: ModelSpec, m1: ModelSpec|
        #![trigger renamed(model, m0, c.model_hash@), configured_by(c, m0, m1)]
        renamed(model, m0, c.model_hash@) && configured_by(c, m0, m1) && match slug_parts(
            config_axis(c),
            c.model_hash@,
            model.model_id@,
        ) {
            Some(p) => parts_applied(m1, p, r),
            None => r == m1,
        }
}

/// `r` is the request `model` resolved on the plugin model `d` that its id selects with the
/// variant `parts`: selected by the plugin model's id, then with the variant applied.
pub open spec fn resolved_on_plugin(model: ModelSpec, d: PluginModelDescriptor, parts: Option<PartsView>, r: ModelSpec) -> bool {
    exists|m0: ModelSpec|
        #![trigger renamed(model, m0, d.id@)]
        renamed(model, m0, d.id@) && match parts {
            Some(p) => parts_applied(m0, p, r),
            None => r == m0,
        }
}

/// Resolves the model a run requests, given the stored configuration its id resolves to, if
/// any: a configured model is selected by its hash with its configuration and the requested
/// variant applied; otherwise the first plugin model the id selects, with the requested variant;
/// otherwise the request stays. Also returns the variant a subagent inherits (see
/// [`variant_id`]).
pub fn resolve_run_model(
    model: ModelSpec,
    configured: Option<&ModelConfig>,
    plugin_models: &[PluginModelDescriptor],
) -> (r: (ModelSpec, Option<String>))
    ensures
        match configured {
            Some(c) => resolved_on_config(model, *c, r.0) && opt_view(r.1) == variant_id(
                config_axis(*c),
                c.model_hash@,
                r.0,
            ),
            None => (exists|i: int|
                0 <= i < plugin_models@.len() && plugin_match(plugin_models@[i], model.model_id@) is Some
                    && (forall|j: int|
                    0 <= j < i ==> plugin_match(#[trigger] plugin_models@[j], model.model_id@) is None)
                    && resolved_on_plugin(
                    model,
                    plugin_models@[i],
                    plugin_match(plugin_models@[i], model.model_id@)->Some_0,
                    r.0,
                ) && opt_view(r.1) == variant_id(
                    plugin_axis(plugin_models@[i]),
                    plugin_models@[i].id@,
                    r.0,
                )) || ((forall|i: int|
                0 <= i < plugin_models@.len() ==> plugin_match(#[trigger] plugin_models@[i], model.model_id@)
                    is None) && r.0 == model && r.1 is None),
        },
{
    let requested = crate::text::copy(model.model_id.as_str());
    let ghost given = model;
    let mut model = model;
    match configured {
        Some(c) => {
            model.model_id = crate::text::copy(c.model_hash.as_str());
            let ghost m0 = model;
            c.configure(&mut model);
            let ghost m1 = model;
            let axis = c.variant_axis();
            match axis.parse_slug(c.model_hash.as_str(), requested.as_str()) {
                Some(p) => apply_variant_parts(&mut model, p),
                None => {},
            }
            assert(renamed(given, m0, c.model_hash@) && configured_by(*c, m0, m1));
            let variant = model_variant_id(&axis, c.model_hash.as_str(), &model);
            (model, variant)
        },
        None => match resolve_plugin_model(plugin_models, requested.as_str()) {
            Some((d, axis, parts)) => {
                model.model_id = crate::text::copy(d.id.as_str());
                let ghost m0 = model;
                match parts {
                    Some(p) => apply_variant_parts(&mut model, p),
                    None => {},
                }
                assert(renamed(given, m0, d.id@));
                let variant = model_variant_id(&axis, d.id.as_str(), &model);
                (model, variant)
            },
            None => (model, None),
        },
    }
}

/// The id of one execution of a request from a given identifier: the request id, a colon, and
/// the identifier's first eight characters (which must be ASCII, so that they are eight bytes).
pub fn execution_run_id_from(request_id: &str, token: &str) -> (r: String)
    requires
        token@.len() >= 8,
        forall|i: int| 0 <= i < 8 ==> (#[trigger] token@[i] as u32) < 128,
    ensures
        r@ == request_id@ + ":"@ + token@.take(8),
{
    let digits = crate::text::chars_of(token);
    let suffix = crate::text::string_of_range(&digits, 0, 8);
    let mut r = crate::text::copy(request_id);
    crate::text::push_str(&mut r, ":");
    crate::text::push_str(&mut r, suffix.as_str());
    assert(token@.subrange(0, 8) =~= token@.take(8));
    r
}

/// The id of one execution of a request: the request id, a colon, and the first eight digits of
/// a fresh random identifier.
pub fn execution_run_id(request_id: &str) -> (r: String)
    ensures
        r@.len() == request_id@.len() + 9,
        r@.take(request_id@.len() as int) == request_id@,
        r@[request_id@.len() as int] == ':',
        forall|i: int|
            request_id@.len() + 1 <= i < r@.len() ==> crate::skills::is_lower_hex(#[trigger] r@[i]),
{
    let token = crate::skills::random_token();
    proof {
        assert forall|i: int| 0 <= i < 8 implies (#[trigger] token@[i] as u32) < 128 by {
            assert(crate::skills::is_lower_hex(token@[i]));
        }
    }
    let r = execution_run_id_from(request_id, token.as_str());
    proof {
        reveal_strlit(":");
        assert forall|i: int| request_id@.len() + 1 <= i < r@.len() implies crate::skills::is_lower_hex(
            #[trigger] r@[i],
        ) by {
            assert(r@[i] == token@[i - request_id@.len() - 1]);
        }
        assert(r@.take(request_id@.len() as int) =~= request_id@);
    }
    r
}

/// The prompt modes a run is compiled in.
#[derive(Clone, Copy, Debug, PartialEq, Eq)]
pub enum Mode {
    Agent,
    Ask,
    Plan,
    Debug,
    Multitask,
    Projects,
    Subagent,
    Compaction,
}

/// The protocol number of the unspecified agent mode.
pub const AGENT_MODE_UNSPECIFIED: i32 = 0;
/// The protocol number of the agent mode.
pub const AGENT_MODE_AGENT: i32 = 1;
/// The protocol number of the ask mode.
pub const AGENT_MODE_ASK: i32 = 2;
/// The protocol number of the plan mode.
pub const AGENT_MODE_PLAN: i32 = 3;
/// The protocol number of the debug mode.
pub const AGENT_MODE_DEBUG: i32 = 4;
/// The protocol number of the triage mode.
pub const AGENT_MODE_TRIAGE: i32 = 5;
/// The protocol number of the project mode.
pub const AGENT_MODE_PROJECT: i32 = 6;
/// The protocol number of the multitask mode.
pub const AGENT_MODE_MULTITASK: i32 = 7;

/// The prompt mode of a protocol mode, or the error: a number the protocol does not define
/// is unknown; the unspecified and triage modes are unsupported.
pub open spec fn mode_of(mode: i32) -> Result<Mode, Seq<char>> {
    if mode == 1 {
        Ok(Mode::Agent)
    } else if mode == 2 {
        Ok(Mode::Ask)
    } else if mode == 3 {
        Ok(Mode::Plan)
    } else if mode == 4 {
        Ok(Mode::Debug)
    } else if mode == 7 {
        Ok(Mode::Multitask)
    } else if mode == 6 {
        Ok(Mode::Projects)
    } else if mode == 0 {
        Err("unsupported Cursor agent mode: AGENT_MODE_UNSPECIFIED"@)
    } else if mode == 5 {
        Err("unsupported Cursor agent mode: AGENT_MODE_TRIAGE"@)
    } else {
        Err("unknown Cursor agent mode: "@ + crate::text::int_text(mode as int))
    }
}

/// The prompt mode of a protocol mode (see [`mode_of`]); an unsupported mode is never
/// silently treated as the agent mode.
pub fn mode_from_proto(mode: i32) -> (r: Result<Mode, Error>)
    ensures
        match (r, mode_of(mode)) {
            (Ok(m), Ok(n)) => m == n,
            (Err(e), Err(m)) => is_protocol(e, m),
            _ => false,
        },
{
    if mode == AGENT_MODE_AGENT {
        Ok(Mode::Agent)
    } else if mode == AGENT_MODE_ASK {
        Ok(Mode::Ask)
    } else if mode == AGENT_MODE_PLAN {
        Ok(Mode::Plan)
    } else if mode == AGENT_MODE_DEBUG {
        Ok(Mode::Debug)
    } else if mode == AGENT_MODE_MULTITASK {
        Ok(Mode::Multitask)
    } else if mode == AGENT_MODE_PROJECT {
        Ok(Mode::Projects)
    } else if mode == AGENT_MODE_UNSPECIFIED {
        Err(crate::error::protocol_message("unsupported Cursor agent mode: AGENT_MODE_UNSPECIFIED"))
    } else if mode == AGENT_MODE_TRIAGE {
        Err(crate::error::protocol_message("unsupported Cursor agent mode: AGENT_MODE_TRIAGE"))
    } else {
        let digits = crate::text::int_string(mode);
        Err(crate::error::protocol_error("unknown Cursor agent mode: ", digits.as_str()))
    }
}

/// The text of a stored runtime message: its first part, which must be text.
pub open spec fn runtime_text(m: CanonicalMessage) -> Result<Seq<char>, Seq<char>> {
    match m.content {
        MessageContent::Parts { parts } => if parts@.len() == 0 {
            Err("stored runtime message does not start with text"@)
        } else {
            match parts@[0] {
                ContentPart::Text { text } => Ok(text@),
                _ => Err("stored runtime message does not start with text"@),
            }
        },
        _ => Err("stored runtime message does not contain parts"@),
    }
}

/// The text of a stored runtime message (see [`runtime_text`]).
pub fn runtime_message_text(message: &CanonicalMessage) -> (r: Result<String, Error>)
    ensures
        match (r, runtime_text(*message)) {
            (Ok(t), Ok(u)) => t@ == u,
            (Err(e), Err(m)) => is_protocol(e, m),
            _ => false,
        },
{
    match &message.content {
        MessageContent::Parts { parts } => {
            if parts.len() == 0 {
                return Err(
                    crate::error::protocol_message("stored runtime message does not start with text"),
                );
            }
            match &parts[0] {
                ContentPart::Text { text } => Ok(crate::text::copy(text.as_str())),
                _ => Err(
                    crate::error::protocol_message("stored runtime message does not start with text"),
                ),
            }
        },
        _ => Err(crate::error::protocol_message("stored runtime message does not contain parts")),
    }
}

/// A system prompt root: a system message from the prompt.
pub open spec fn is_prompt_root(m: CanonicalMessage) -> bool {
    m.role == Role::System && m.origin == Origin::Prompt
}

/// The number of prompt roots among messages.
pub open spec fn root_count(messages: Seq<CanonicalMessage>) -> nat
    decreases messages.len(),
{
    if messages.len() == 0 {
        0
    } else {
        root_count(messages.drop_last()) + if is_prompt_root(messages.last()) {
            1nat
        } else {
            0nat
        }
    }
}

/// The first prompt root among messages.
pub open spec fn first_root(messages: Seq<CanonicalMessage>) -> Option<int> {
    if exists|i: int| 0 <= i < messages.len() && is_prompt_root(#[trigger] messages[i]) {
        Some(
            choose|i: int|
                0 <= i < messages.len() && is_prompt_root(#[trigger] messages[i]) && forall|j: int|
                    0 <= j < i ==> !is_prompt_root(messages[j]),
        )
    } else {
        None
    }
}

/// Restored history has exactly one system prompt root, and it is a single text part; it is
/// structural, not bound to the next model.
pub open spec fn prompt_root_check(messages: Seq<CanonicalMessage>) -> Option<Seq<char>> {
    if root_count(messages) != 1 {
        Some(
            "Cursor history contains "@ + crate::text::decimal(root_count(messages))
                + " system prompt roots"@,
        )
    } else {
        match first_root(messages) {
            Some(i) => match messages[i].content {
                MessageContent::Parts { parts } => if parts@.len() == 1 && parts@[0] is Text {
                    None
                } else {
                    Some("Cursor system prompt root is not one text part"@)
                },
                _ => Some("Cursor system prompt root is not textual content"@),
            },
            None => Some("Cursor system prompt root is not textual content"@),
        }
    }
}

/// Checks the system prompt root of restored history (see [`prompt_root_check`]).
pub fn validate_prompt_root(messages: &[CanonicalMessage]) -> (r: Result<(), Error>)
    ensures
        match (r, prompt_root_check(messages@)) {
            (Ok(_), None) => true,
            (Err(e), Some(m)) => is_protocol(e, m),
            _ => false,
        },
{
    let mut count: usize = 0;
    let mut first: usize = messages.len();
    let mut k: usize = 0;
    while k < messages.len()
        invariant
            k <= messages.len(),
            count == root_count(messages@.take(k as int)),
            count <= k,
            first <= messages.len(),
            count == 0 ==> first == messages.len(),
            count > 0 ==> first < k && is_prompt_root(messages@[first as int]) && forall|j: int|
                0 <= j < first ==> !is_prompt_root(#[trigger] messages@[j]),
            count == 0 ==> forall|j: int| 0 <= j < k ==> !is_prompt_root(#[trigger] messages@[j]),
        decreases messages.len() - k,
    {
        assert(messages@.take(k + 1).drop_last() == messages@.take(k as int));
        let root = match (messages[k].role, messages[k].origin) {
            (Role::System, Origin::Prompt) => true,
            _ => false,
        };
        if root {
            if count == 0 {
                first = k;
            }
            count = count + 1;
        }
        k = k + 1;
    }
    assert(messages@.take(messages.len() as int) == messages@);
    if count != 1 {
        let mut m = crate::text::copy("Cursor history contains ");
        let digits = crate::text::decimal_string(count as u64);
        crate::text::push_str(&mut m, digits.as_str());
        crate::text::push_str(&mut m, " system prompt roots");
        return Err(crate::error::Error::Protocol(m));
    }
    proof {
        let c = choose|i: int|
            0 <= i < messages@.len() && is_prompt_root(#[trigger] messages@[i]) && forall|j: int|
                0 <= j < i ==> !is_prompt_root(messages@[j]);
        assert(is_prompt_root(messages@[first as int]));
        if c < first {
        } else if c > first {
        }
        assert(first_root(messages@) == Some(first as int));
    }
    match &messages[first].content {
        MessageContent::Parts { parts } => {
            if parts.len() == 1 {
                match &parts[0] {
                    ContentPart::Text { .. } => Ok(()),
                    _ => Err(
                        crate::error::protocol_message(
                            "Cursor system prompt root is not one text part",
                        ),
                    ),
                }
            } else {
                Err(crate::error::protocol_message("Cursor system prompt root is not one text part"))
            }
        },
        _ => Err(
            crate::error::protocol_message("Cursor system prompt root is not textual content"),
        ),
    }
}

/// The conversation of a request: its id, or the request's own id when it has none.
pub open spec fn conversation_of(request_id: Seq<char>, request: AgentRunRequest) -> Seq<char> {
    match opt_view(request.conversation_id) {
        Some(id) => id,
        None => request_id,
    }
}

/// The conversation of a request (see [`conversation_of`]): a missing id is scoped to the
/// request.
pub fn request_conversation_id(request_id: &str, request: &AgentRunRequest) -> (r: String)
    ensures
        r@ == conversation_of(request_id@, *request),
{
    match &request.conversation_id {
        Some(id) => crate::text::copy(id.as_str()),
        None => crate::text::copy(request_id),
    }
}

/// What a run request projects to before compiling.
pub struct ActionProjection {
    pub mode: i32,
    pub turn_user: Option<UserMessage>,
    pub action_context: String,
    pub event_id: Option<String>,
    pub input_id: Option<String>,
    pub starts_turn: bool,
    pub compacting: bool,
    pub background_completions: Vec<ProjectedCompletion>,
}

/// The text view of a projection without background completions.
pub struct ActionView {
    pub mode: i32,
    pub turn_user: Option<UserView>,
    pub action_context: Seq<char>,
    pub event_id: Option<Seq<char>>,
    pub input_id: Option<Seq<char>>,
    pub starts_turn: bool,
    pub compacting: bool,
}

/// The view of a projection without its background completions.
pub open spec fn action_view(p: ActionProjection) -> ActionView {
    ActionView {
        mode: p.mode,
        turn_user: match p.turn_user {
            Some(u) => Some(u@),
            None => None,
        },
        action_context: p.action_context@,
        event_id: opt_view(p.event_id),
        input_id: opt_view(p.input_id),
        starts_turn: p.starts_turn,
        compacting: p.compacting,
    }
}

/// A projection that neither starts a turn nor carries context.
pub open spec fn idle_view(mode: i32, compacting: bool) -> ActionView {
    ActionView {
        mode,
        turn_user: None,
        action_context: Seq::empty(),
        event_id: None,
        input_id: None,
        starts_turn: false,
        compacting,
    }
}

/// A value or the text of a value, when present.
pub open spec fn or_empty(o: Option<Seq<char>>) -> Seq<char> {
    match o {
        Some(s) => s,
        None => Seq::empty(),
    }
}

/// The plan an execute-plan action carries: the plan file's content if sent, otherwise the
/// plan; it must not be blank.
pub open spec fn plan_of(a: ExecutePlanAction) -> Option<Seq<char>> {
    let candidate = match opt_view(a.plan_file_content) {
        Some(c) => Some(c),
        None => match a.plan {
            Some(p) => Some(p.plan@),
            None => None,
        },
    };
    match candidate {
        Some(c) => if crate::text::trim(c).len() > 0 {
            Some(c)
        } else {
            None
        },
        None => None,
    }
}

/// Where the plan comes from: its URI if sent, otherwise its path; not empty.
pub open spec fn plan_source(a: ExecutePlanAction) -> Option<Seq<char>> {
    let candidate = match opt_view(a.plan_file_uri) {
        Some(u) => Some(u),
        None => opt_view(a.plan_file_path),
    };
    crate::completions::nonempty(candidate)
}

/// The stable runtime event of an approved plan: the base64 content address of its mode,
/// plan id, kickoff message id, source and plan, separated by NUL characters.
pub open spec fn plan_event_id(a: ExecutePlanAction, plan: Seq<char>) -> Seq<char> {
    let text = crate::text::int_text(a.execution_mode as int) + "\u{0}"@ + or_empty(
        opt_view(a.plan_id),
    ) + "\u{0}"@ + or_empty(opt_view(a.kickoff_message_id)) + "\u{0}"@ + or_empty(
        plan_source(a),
    ) + "\u{0}"@ + plan;
    "execute-plan:"@ + base64_standard(sha256(encode_utf8(text)))
}

/// The context an approved plan is executed with.
pub open spec fn plan_context(a: ExecutePlanAction, plan: Seq<char>) -> Seq<char> {
    match plan_source(a) {
        Some(source) => "<approved_plan>\n<plan_file>"@ + source + "</plan_file>\n"@ + plan
            + "\n</approved_plan>"@,
        None => "<approved_plan>\n"@ + plan + "\n</approved_plan>"@,
    }
}

/// The projection of an approved plan: a turn in its execution mode started by a user
/// message asking to execute it, identified by the plan's stable event id.
pub open spec fn plan_projection(a: ExecutePlanAction) -> Result<ActionView, Seq<char>> {
    match plan_of(a) {
        None => Err("ExecutePlan is missing plan content"@),
        Some(plan) => {
            let event_id = plan_event_id(a, plan);
            Ok(
                ActionView {
                    mode: a.execution_mode,
                    turn_user: Some(
                        UserView {
                            text: "Execute the approved plan."@,
                            message_id: event_id,
                            mode: a.execution_mode,
                            subagent_system_reminder: None,
                            is_simulated_msg: None,
                            simulated_msg_reason: None,
                            simulated_message_metadata: None,
                        },
                    ),
                    action_context: plan_context(a, plan),
                    event_id: Some(event_id),
                    input_id: None,
                    starts_turn: true,
                    compacting: false,
                },
            )
        },
    }
}

/// Projects an approved plan (see [`plan_projection`]).
pub fn execute_plan(action: &ExecutePlanAction) -> (r: Result<ActionProjection, Error>)
    ensures
        match (r, plan_projection(*action)) {
            (Ok(p), Ok(v)) => action_view(p) == v && p.background_completions@.len() == 0,
            (Err(e), Err(m)) => is_protocol(e, m),
            _ => false,
        },
{
    let candidate = match &action.plan_file_content {
        Some(c) => Some(c.as_str()),
        None => match &action.plan {
            Some(p) => Some(p.plan.as_str()),
            None => None,
        },
    };
    let plan = match candidate {
        Some(c) => {
            let trimmed = crate::text::trim_str(c);
            if trimmed.as_str().is_empty() {
                None
            } else {
                Some(c)
            }
        },
        None => None,
    };
    let plan = match plan {
        Some(p) => p,
        None => {
            return Err(crate::error::protocol_message("ExecutePlan is missing plan content"));
        },
    };
    let source_candidate = match &action.plan_file_uri {
        Some(u) => Some(u.as_str()),
        None => match &action.plan_file_path {
            Some(p) => Some(p.as_str()),
            None => None,
        },
    };
    let source = match source_candidate {
        Some(s) => if s.is_empty() {
            None
        } else {
            Some(s)
        },
        None => None,
    };
    let context = match source {
        Some(src) => {
            let mut c = crate::text::copy("<approved_plan>\n<plan_file>");
            crate::text::push_str(&mut c, src);
            crate::text::push_str(&mut c, "</plan_file>\n");
            crate::text::push_str(&mut c, plan);
            crate::text::push_str(&mut c, "\n</approved_plan>");
            c
        },
        None => {
            let mut c = crate::text::copy("<approved_plan>\n");
            crate::text::push_str(&mut c, plan);
            crate::text::push_str(&mut c, "\n</approved_plan>");
            c
        },
    };
    let mut text = crate::text::int_string(action.execution_mode);
    crate::text::push_str(&mut text, "\u{0}");
    match &action.plan_id {
        Some(id) => crate::text::push_str(&mut text, id.as_str()),
        None => {},
    }
    crate::text::push_str(&mut text, "\u{0}");
    match &action.kickoff_message_id {
        Some(id) => crate::text::push_str(&mut text, id.as_str()),
        None => {},
    }
    crate::text::push_str(&mut text, "\u{0}");
    match source {
        Some(src) => crate::text::push_str(&mut text, src),
        None => {},
    }
    crate::text::push_str(&mut text, "\u{0}");
    crate::text::push_str(&mut text, plan);
    proof {
        reveal_strlit("");
    }
    assert(text@ == crate::text::int_text(action.execution_mode as int) + "\u{0}"@ + or_empty(
        opt_view(action.plan_id),
    ) + "\u{0}"@ + or_empty(opt_view(action.kickoff_message_id)) + "\u{0}"@ + or_empty(
        plan_source(*action),
    ) + "\u{0}"@ + plan@);
    let identity = BlobId::digest(text.as_str().as_bytes()).to_base64();
    let mut event_id = crate::text::copy("execute-plan:");
    crate::text::push_str(&mut event_id, identity.as_str());
    let turn_user = UserMessage::new(
        "Execute the approved plan.",
        event_id.as_str(),
        action.execution_mode,
    );
    Ok(
        ActionProjection {
            mode: action.execution_mode,
            turn_user: Some(turn_user),
            action_context: context,
            event_id: Some(event_id),
            input_id: None,
            starts_turn: true,
            compacting: false,
            background_completions: Vec::new(),
        },
    )
}

/// The conversation's mode; the agent mode when the state has none.
pub open spec fn conversation_mode(request: AgentRunRequest) -> i32 {
    match request.conversation_state {
        Some(state) => match state.mode {
            Some(m) => m,
            None => 1,
        },
        None => 1,
    }
}

/// The prepended messages' texts that are not blank, trimmed, in order.
pub open spec fn prepended_lines(texts: Seq<Seq<char>>) -> Seq<Seq<char>>
    decreases texts.len(),
{
    if texts.len() == 0 {
        texts
    } else {
        let rest = prepended_lines(texts.drop_last());
        if crate::text::trim(texts.last()).len() > 0 {
            rest.push(crate::text::trim(texts.last()))
        } else {
            rest
        }
    }
}

/// The projection of a user message action: the message's own mode unless unspecified; a
/// message without an id is an error; `/summarize` compacts; otherwise a turn starts with
/// the prepended texts and the subagent reminder as context, anchored at the message id.
pub open spec fn user_projection(a: UserMessageAction, conversation: i32) -> Result<ActionView, Seq<char>> {
    match a.user_message {
        None => Err("Cursor user message action has no UserMessage"@),
        Some(user) => {
            let mode = if user.mode == 0 {
                conversation
            } else {
                user.mode
            };
            if user.message_id@.len() == 0 {
                Err("Cursor user message action has no message_id"@)
            } else if crate::text::trim(user.text@) == "/summarize"@ {
                Ok(ActionView { turn_user: Some(user@), ..idle_view(mode, true) })
            } else {
                let lines = prepended_lines(views(a.prepend_user_messages@)) + match crate::completions::nonempty(
                    opt_view(user.subagent_system_reminder),
                ) {
                    Some(r) => seq![r],
                    None => Seq::empty(),
                };
                Ok(
                    ActionView {
                        mode,
                        turn_user: Some(user@),
                        action_context: join(lines, "\n\n"@),
                        event_id: None,
                        input_id: Some("cursor:user:"@ + user.message_id@),
                        starts_turn: true,
                        compacting: false,
                    },
                )
            }
        },
    }
}

/// The projection of a run request by its action; without one, nothing starts. A background
/// batch is projected without client state or committed coverage (see
/// [`crate::completions::project`]) and starts a turn with its first completion's message.
pub open spec fn action_result(r: Result<ActionProjection, Error>, request: AgentRunRequest) -> bool {
    let mode = conversation_mode(request);
    let act = match request.action {
        Some(c) => c.action,
        None => None,
    };
    match act {
        None => r matches Ok(p) && action_view(p) == idle_view(mode, false)
            && p.background_completions@.len() == 0,
        Some(Action::UserMessageAction(a)) => match (r, user_projection(a, mode)) {
            (Ok(p), Ok(v)) => action_view(p) == v && p.background_completions@.len() == 0,
            (Err(e), Err(m)) => is_protocol(e, m),
            _ => false,
        },
        Some(Action::ExecutePlanAction(a)) => match (r, plan_projection(a)) {
            (Ok(p), Ok(v)) => action_view(p) == v && p.background_completions@.len() == 0,
            (Err(e), Err(m)) => is_protocol(e, m),
            _ => false,
        },
        Some(Action::SummarizeAction) => r matches Ok(p) && action_view(p) == idle_view(mode, true)
            && p.background_completions@.len() == 0,
        Some(Action::Other) => r matches Ok(p) && action_view(p) == idle_view(mode, false)
            && p.background_completions@.len() == 0,
        Some(Action::BackgroundTaskCompletionAction(a)) => {
            &&& crate::completions::projection_result(
                match r {
                    Ok(p) => Ok(
                        if p.background_completions@.len() == 0 {
                            None
                        } else {
                            Some(Projection { completions: p.background_completions })
                        },
                    ),
                    Err(e) => Err(e),
                },
                a.completions@,
                mode,
                None,
                Set::empty(),
            )
            &&& r matches Ok(p) ==> {
                &&& p.mode == mode
                &&& p.action_context@.len() == 0
                &&& p.event_id is None
                &&& p.input_id is None
                &&& p.starts_turn
                &&& !p.compacting
                &&& match p.turn_user {
                    Some(u) => p.background_completions@.len() > 0 && u@
                        == p.background_completions@[0].turn_user@,
                    None => p.background_completions@.len() == 0,
                }
            }
        },
    }
}

/// A projection that starts nothing.
fn idle(mode: i32, compacting: bool) -> (r: ActionProjection)
    ensures
        action_view(r) == idle_view(mode, compacting),
        r.background_completions@.len() == 0,
{
    proof {
        reveal_strlit("");
    }
    ActionProjection {
        mode,
        turn_user: None,
        action_context: String::new(),
        event_id: None,
        input_id: None,
        starts_turn: false,
        compacting,
        background_completions: Vec::new(),
    }
}

/// Trims the prepended texts and keeps those that are not blank.
fn prepended_context(texts: &Vec<String>) -> (r: Vec<String>)
    ensures
        views(r@) == prepended_lines(views(texts@)),
{
    let mut r: Vec<String> = Vec::new();
    let mut k: usize = 0;
    while k < texts.len()
        invariant
            k <= texts.len(),
            views(r@) == prepended_lines(views(texts@).take(k as int)),
        decreases texts.len() - k,
    {
        let ghost prefix = views(texts@).take(k + 1);
        assert(prefix.drop_last() == views(texts@).take(k as int));
        assert(prefix.last() == texts@[k as int]@);
        let t = crate::text::trim_str(texts[k].as_str());
        if !t.as_str().is_empty() {
            let ghost before = views(r@);
            r.push(t);
            assert(views(r@) == before.push(crate::text::trim(texts@[k as int]@)));
        }
        k = k + 1;
    }
    assert(views(texts@).take(texts.len() as int) == views(texts@));
    r
}

/// Projects the action of a run request (see [`action_result`]).
pub fn action(request: &AgentRunRequest) -> (r: Result<ActionProjection, Error>)
    ensures
        action_result(r, *request),
{
    let mode = match &request.conversation_state {
        Some(state) => match state.mode {
            Some(m) => m,
            None => AGENT_MODE_AGENT,
        },
        None => AGENT_MODE_AGENT,
    };
    let act = match &request.action {
        Some(c) => match &c.action {
            Some(a) => a,
            None => {
                return Ok(idle(mode, false));
            },
        },
        None => {
            return Ok(idle(mode, false));
        },
    };
    match act {
        Action::UserMessageAction(a) => {
            let user = match &a.user_message {
                Some(u) => u,
                None => {
                    return Err(
                        crate::error::protocol_message(
                            "Cursor user message action has no UserMessage",
                        ),
                    );
                },
            };
            let mode = if user.mode == AGENT_MODE_UNSPECIFIED {
                mode
            } else {
                user.mode
            };
            if user.message_id.as_str().is_empty() {
                return Err(
                    crate::error::protocol_message("Cursor user message action has no message_id"),
                );
            }
            let trimmed = crate::text::trim_str(user.text.as_str());
            if crate::text::str_eq(trimmed.as_str(), "/summarize") {
                let mut p = idle(mode, true);
                p.turn_user = Some(user.copy());
                return Ok(p);
            }
            let mut lines = prepended_context(&a.prepend_user_messages);
            let ghost first = views(lines@);
            match &user.subagent_system_reminder {
                Some(reminder) => if !reminder.as_str().is_empty() {
                    lines.push(crate::text::copy(reminder.as_str()));
                    assert(views(lines@) == first.push(reminder@));
                },
                None => {},
            }
            assert(views(lines@) == prepended_lines(views(a.prepend_user_messages@))
                + match crate::completions::nonempty(opt_view(user.subagent_system_reminder)) {
                Some(r) => seq![r],
                None => Seq::<Seq<char>>::empty(),
            });
            let mut input_id = crate::text::copy("cursor:user:");
            crate::text::push_str(&mut input_id, user.message_id.as_str());
            Ok(
                ActionProjection {
                    mode,
                    turn_user: Some(user.copy()),
                    action_context: crate::text::join_strs(&lines, "\n\n"),
                    event_id: None,
                    input_id: Some(input_id),
                    starts_turn: true,
                    compacting: false,
                    background_completions: Vec::new(),
                },
            )
        },
        Action::BackgroundTaskCompletionAction(a) => {
            let covered = vstd::hash_set::StringHashSet::new();
            match crate::completions::project(a, mode, None, &covered) {
                Err(e) => Err(e),
                Ok(None) => {
                    proof {
                        reveal_strlit("");
                    }
                    Ok(
                        ActionProjection {
                            mode,
                            turn_user: None,
                            action_context: String::new(),
                            event_id: None,
                            input_id: None,
                            starts_turn: true,
                            compacting: false,
                            background_completions: Vec::new(),
                        },
                    )
                },
                Ok(Some(projection)) => {
                    proof {
                        reveal_strlit("");
                    }
                    let turn_user = if projection.completions.len() > 0 {
                        Some(projection.completions[0].turn_user.copy())
                    } else {
                        None
                    };
                    Ok(
                        ActionProjection {
                            mode,
                            turn_user,
                            action_context: String::new(),
                            event_id: None,
                            input_id: None,
                            starts_turn: true,
                            compacting: false,
                            background_completions: projection.completions,
                        },
                    )
                },
            }
        },
        Action::ExecutePlanAction(a) => execute_plan(a),
        Action::SummarizeAction => Ok(idle(mode, true)),
        Action::Other => Ok(idle(mode, false)),
    }
}

/// A tool offered to the model; its parameters are a JSON schema text.
pub struct ToolDefinition {
    pub name: String,
    pub description: String,
    pub parameters: String,
}

/// The instructions and tools of a prompt.
pub struct PromptSpec {
    pub instructions: String,
    pub tools: Vec<ToolDefinition>,
}

/// What a compiled run carries to its execution: the request, its mode and user turn, the tool
/// context, the request's own tools by name, and the prompt that the checkpoint records.
pub struct CursorRunContext {
    pub request_id: String,
    pub mode: i32,
    pub turn_user: Option<UserMessage>,
    pub exec_context: ExecContext,
    pub dynamic_tools: Vec<(String, ToolDefinition)>,
    pub checkpoint_prompt: PromptSpec,
    pub compacting: bool,
    pub background_completion: bool,
}

/// Local Semble search tools, which a remote workspace replaces with Cursor's MCP.
pub open spec fn is_local_semble(name: Seq<char>) -> bool {
    name == "SembleSearch"@ || name == "SembleFindRelated"@
}

/// The tools without the local Semble tools, in order.
pub open spec fn without_semble(tools: Seq<ToolDefinition>) -> Seq<ToolDefinition>
    decreases tools.len(),
{
    if tools.len() == 0 {
        tools
    } else if is_local_semble(tools.last().name@) {
        without_semble(tools.drop_last())
    } else {
        without_semble(tools.drop_last()).push(tools.last())
    }
}

/// Removes the local Semble tools from a prompt.
pub fn remove_local_semble_tools(prompt: &mut PromptSpec)
    ensures
        final(prompt).instructions == old(prompt).instructions,
        final(prompt).tools@ == without_semble(old(prompt).tools@),
{
    let mut tools: Vec<ToolDefinition> = Vec::new();
    std::mem::swap(&mut tools, &mut prompt.tools);
    let ghost given = tools@;
    assert(given.len() == tools.len());
    let mut kept: Vec<ToolDefinition> = Vec::new();
    let mut k: usize = 0;
    while tools.len() > 0
        invariant
            k + tools@.len() == given.len(),
            given.len() <= usize::MAX,
            tools@ == given.skip(k as int),
            kept@ == without_semble(given.take(k as int)),
        decreases tools@.len(),
    {
        let tool = tools.remove(0);
        assert(given.take(k + 1).drop_last() == given.take(k as int));
        assert(given.take(k + 1).last() == tool);
        assert(tools@ == given.skip(k + 1));
        let semble = crate::text::str_eq(tool.name.as_str(), "SembleSearch")
            || crate::text::str_eq(tool.name.as_str(), "SembleFindRelated");
        if !semble {
            kept.push(tool);
        }
        k = k + 1;
    }
    assert(given.take(k as int) == given);
    prompt.tools = kept;
}

} // verus!
