//! How a run prepares tool calls: which tools orchestrate subagents, which subagent model a
//! Task runs with, and whether a subagent type is disabled.
use vstd::prelude::*;

use crate::error::{is_protocol, Error};
use crate::json::{member_of, text_of, with_member, JsonValue};
use crate::text::lower;

verus! {

/// The kind of subagent a Task starts.
pub enum SubagentKind {
    GeneralPurpose,
    Named(String),
}

/// The model a subagent kind runs with.
pub enum SubagentModel {
    Model(String),
    Inherit,
    Disabled,
}

/// How the settings choose a subagent kind's model: a model of its own, the parent's, or none
/// (the kind is disabled).
pub enum SubagentModelOverride {
    Explicit(crate::model_config::ModelSpec),
    Inherit,
    Disabled,
}

/// A tool call of a model.
pub struct ToolCall {
    pub index: usize,
    pub call_id: String,
    pub model_call_id: String,
    pub name: String,
    pub arguments_text: String,
    pub arguments: JsonValue,
    pub argument_error: Option<String>,
}

/// A dynamic MCP tool a run routes.
pub struct McpRoute {
    pub name: String,
    pub provider_identifier: String,
    pub tool_name: String,
    pub description: String,
}

/// What a run knows when it prepares tool calls.
pub struct ExecContext {
    pub conversation_id: String,
    pub root_conversation_id: String,
    pub default_subagent_model: String,
    pub default_subagent_model_variant: Option<String>,
    /// Model references (names, slugs) to their canonical model.
    pub model_aliases: vstd::hash_map::StringHashMap<String>,
    /// Canonical models to their default (context, effort) variant.
    pub model_variant_defaults: vstd::hash_map::StringHashMap<(String, String)>,
    /// Subagent kinds, by [`kind_key`], to their model.
    pub subagent_models: vstd::hash_map::StringHashMap<SubagentModel>,
    pub allow_subagents: bool,
    pub terminals_folder: String,
    pub admin_command_denylist: Vec<String>,
    pub mcp_routes: Vec<((String, String), McpRoute)>,
}

impl Default for ExecContext {
    /// A context with no models and no settings.
    fn default() -> (r: ExecContext)
        ensures
            r.default_subagent_model@.len() == 0,
            r.default_subagent_model_variant is None,
            r.model_aliases@ == Map::<Seq<char>, String>::empty(),
            r.model_variant_defaults@ == Map::<Seq<char>, (String, String)>::empty(),
            r.subagent_models@ == Map::<Seq<char>, SubagentModel>::empty(),
            !r.allow_subagents,
    {
        proof {
            reveal_strlit("");
        }
        ExecContext {
            conversation_id: String::new(),
            root_conversation_id: String::new(),
            default_subagent_model: String::new(),
            default_subagent_model_variant: None,
            model_aliases: vstd::hash_map::StringHashMap::new(),
            model_variant_defaults: vstd::hash_map::StringHashMap::new(),
            subagent_models: vstd::hash_map::StringHashMap::new(),
            allow_subagents: false,
            terminals_folder: String::new(),
            admin_command_denylist: Vec::new(),
            mcp_routes: Vec::new(),
        }
    }
}

/// Tools that delegate work to subagents (any ASCII case).
pub open spec fn orchestration(name: Seq<char>) -> bool {
    let n = lower(name);
    n == "task"@ || n == "create-agent"@ || n == "send-message-to-agent"@
}

/// Whether a tool delegates work to subagents: the prompt omits such tools and the runtime
/// rejects them when subagents are disabled for a run.
pub fn is_orchestration_tool(name: &str) -> (r: bool)
    ensures
        r == orchestration(name@),
{
    let n = crate::text::to_lower(name);
    crate::text::str_eq(n.as_str(), "task") || crate::text::str_eq(n.as_str(), "create-agent")
        || crate::text::str_eq(n.as_str(), "send-message-to-agent")
}

/// The subagent kind a Task's `subagent_type` names.
pub fn subagent_kind(value: &str) -> (r: SubagentKind)
    ensures
        match r {
            SubagentKind::GeneralPurpose => value@ == "generalPurpose"@,
            SubagentKind::Named(n) => value@ != "generalPurpose"@ && n@ == value@,
        },
{
    if crate::text::str_eq(value, "generalPurpose") {
        SubagentKind::GeneralPurpose
    } else {
        SubagentKind::Named(crate::text::copy(value))
    }
}

/// The key a subagent kind is stored under: `generalPurpose` or its name.
pub open spec fn kind_key(kind: SubagentKind) -> Seq<char> {
    match kind {
        SubagentKind::GeneralPurpose => "generalPurpose"@,
        SubagentKind::Named(n) => n@,
    }
}

/// The canonical model of a reference: its alias, else its lowercase alias, else itself.
pub open spec fn canonical(aliases: Map<Seq<char>, String>, model: Seq<char>) -> Seq<char> {
    if aliases.contains_key(model) {
        aliases[model]@
    } else if aliases.contains_key(lower(model)) {
        aliases[lower(model)]@
    } else {
        model
    }
}

/// The subagent type a call's arguments name; `generalPurpose` when none.
pub open spec fn subagent_type_of(arguments: JsonValue) -> Seq<char> {
    let named = match arguments {
        JsonValue::Object(members) => text_of(member_of(members@, "subagent_type"@)),
        _ => None,
    };
    match named {
        Some(t) => t,
        None => "generalPurpose"@,
    }
}

/// A Task call whose subagent type is disabled in settings.
pub open spec fn disabled_task(ctx: ExecContext, call: ToolCall) -> bool {
    let key = subagent_type_of(call.arguments);
    &&& orchestration(call.name@)
    &&& ctx.subagent_models@.contains_key(key)
    &&& ctx.subagent_models@[key] is Disabled
}

impl ExecContext {
    /// Adds the model a subagent kind runs with.
    pub fn set_subagent_model(&mut self, kind: SubagentKind, model: SubagentModel)
        ensures
            final(self).subagent_models@ == old(self).subagent_models@.insert(kind_key(kind), model),
            final(self).model_aliases@ == old(self).model_aliases@,
            final(self).model_variant_defaults@ == old(self).model_variant_defaults@,
            final(self).default_subagent_model == old(self).default_subagent_model,
            final(self).default_subagent_model_variant == old(self).default_subagent_model_variant,
    {
        let key = match &kind {
            SubagentKind::GeneralPurpose => crate::text::copy("generalPurpose"),
            SubagentKind::Named(n) => crate::text::copy(n.as_str()),
        };
        self.subagent_models.insert(key, model);
    }

    /// The canonical model of a reference (see [`canonical`]).
    pub fn canonical_model(&self, model: &str) -> (r: String)
        ensures
            r@ == canonical(self.model_aliases@, model@),
    {
        match self.model_aliases.get(model) {
            Some(m) => crate::text::copy(m.as_str()),
            None => {
                let lowered = crate::text::to_lower(model);
                match self.model_aliases.get(lowered.as_str()) {
                    Some(m) => crate::text::copy(m.as_str()),
                    None => crate::text::copy(model),
                }
            },
        }
    }

    /// The model settings give a subagent type, if any.
    pub fn subagent_model_for(&self, subagent_type: &str) -> (r: Option<&SubagentModel>)
        ensures
            match r {
                Some(m) => self.subagent_models@.contains_key(subagent_type@) && *m
                    == self.subagent_models@[subagent_type@],
                None => !self.subagent_models@.contains_key(subagent_type@),
            },
    {
        let kind = subagent_kind(subagent_type);
        match kind {
            SubagentKind::GeneralPurpose => {
                proof {
                    reveal_strlit("generalPurpose");
                }
                self.subagent_models.get("generalPurpose")
            },
            SubagentKind::Named(_) => self.subagent_models.get(subagent_type),
        }
    }

    /// Whether a call is a Task whose subagent type settings disable (see
    /// [`disabled_task`]).
    pub fn task_disabled(&self, call: &ToolCall) -> (r: bool)
        ensures
            r == disabled_task(*self, *call),
    {
        if !is_orchestration_tool(call.name.as_str()) {
            return false;
        }
        let named = match &call.arguments {
            JsonValue::Object(members) => crate::json::text_member(members, "subagent_type"),
            _ => None,
        };
        let subagent_type = match named {
            Some(t) => t,
            None => "generalPurpose",
        };
        match self.subagent_model_for(subagent_type) {
            Some(SubagentModel::Disabled) => true,
            _ => false,
        }
    }
}

/// The candidates of `model_parameters`: the entries of an array, or a single object.
pub open spec fn parameter_candidates(members: Seq<(String, JsonValue)>) -> Seq<JsonValue> {
    match member_of(members, "model_parameters"@) {
        Some(JsonValue::Array(values)) => values@,
        Some(JsonValue::Object(o)) => seq![JsonValue::Object(o)],
        _ => Seq::empty(),
    }
}

/// The value of a parameter entry when it is an object whose `id` is `id` and whose `value`
/// is a string.
pub open spec fn parameter_value(v: JsonValue, id: Seq<char>) -> Option<Seq<char>> {
    match v {
        JsonValue::Object(o) => if text_of(member_of(o@, "id"@)) == Some(id) {
            text_of(member_of(o@, "value"@))
        } else {
            None
        },
        _ => None,
    }
}

/// The first value a list of parameter entries gives `id`.
pub open spec fn first_parameter(values: Seq<JsonValue>, id: Seq<char>) -> Option<Seq<char>>
    decreases values.len(),
{
    if values.len() == 0 {
        None
    } else {
        match parameter_value(values[0], id) {
            Some(v) => Some(v),
            None => first_parameter(values.drop_first(), id),
        }
    }
}

/// The value a Task's `model_parameters` give the parameter `id`.
pub open spec fn task_parameter_of(members: Seq<(String, JsonValue)>, id: Seq<char>) -> Option<Seq<char>> {
    first_parameter(parameter_candidates(members), id)
}

/// The value of one parameter entry (see [`parameter_value`]).
fn entry_value<'a>(v: &'a JsonValue, id: &str) -> (r: Option<&'a str>)
    ensures
        match r {
            Some(s) => parameter_value(*v, id@) == Some(s@),
            None => parameter_value(*v, id@) is None,
        },
{
    match v {
        JsonValue::Object(o) => {
            let matches = match crate::json::text_member(o, "id") {
                Some(t) => crate::text::str_eq(t, id),
                None => false,
            };
            if matches {
                crate::json::text_member(o, "value")
            } else {
                None
            }
        },
        _ => None,
    }
}

/// The value a Task's `model_parameters` give the parameter `id` (see
/// [`task_parameter_of`]).
pub fn task_parameter(arguments: &Vec<(String, JsonValue)>, id: &str) -> (r: Option<String>)
    ensures
        crate::configuration::opt_view(r) == task_parameter_of(arguments@, id@),
{
    match crate::json::find_member(arguments, "model_parameters") {
        None => None,
        Some(i) => match &arguments[i].1 {
            JsonValue::Array(values) => {
                assert(parameter_candidates(arguments@) == values@);
                assert(values@.skip(0) == values@);
                let mut k: usize = 0;
                while k < values.len()
                    invariant
                        k <= values.len(),
                        parameter_candidates(arguments@) == values@,
                        first_parameter(values@, id@) == first_parameter(values@.skip(k as int), id@),
                    decreases values.len() - k,
                {
                    assert(values@.skip(k as int).drop_first() == values@.skip(k + 1));
                    match entry_value(&values[k], id) {
                        Some(v) => {
                            return Some(crate::text::copy(v));
                        },
                        None => {},
                    }
                    k = k + 1;
                }
                assert(values@.skip(k as int).len() == 0);
                None
            },
            JsonValue::Object(_) => {
                let entry = &arguments[i].1;
                assert(parameter_candidates(arguments@) == seq![*entry]);
                assert(seq![*entry].drop_first().len() == 0);
                assert(first_parameter(seq![*entry], id@) == match parameter_value(*entry, id@) {
                    Some(v) => Some(v),
                    None => first_parameter(seq![*entry].drop_first(), id@),
                });
                match entry_value(entry, id) {
                    Some(v) => Some(crate::text::copy(v)),
                    None => None,
                }
            },
            _ => None,
        },
    }
}

/// The model a Task runs with, before any variant defaults: the model settings give its
/// subagent type, else the model the call names (unless `inherit`), else the parent's
/// variant or model. A model the settings or the call name explicitly is canonicalized.
pub open spec fn task_model(ctx: ExecContext, members: Seq<(String, JsonValue)>, subagent_type: Seq<
    char,
>) -> Seq<char> {
    let parent = match crate::configuration::opt_view(ctx.default_subagent_model_variant) {
        Some(v) => v,
        None => ctx.default_subagent_model@,
    };
    let named = text_of(member_of(members, "model"@));
    if ctx.subagent_models@.contains_key(subagent_type) {
        match ctx.subagent_models@[subagent_type] {
            SubagentModel::Model(m) => canonical(ctx.model_aliases@, m@),
            _ => parent,
        }
    } else {
        match named {
            Some(m) => if m == "inherit"@ {
                parent
            } else {
                canonical(ctx.model_aliases@, m)
            },
            None => parent,
        }
    }
}

/// A model with its variant defaults applied: when the model has default variant tiers and
/// the call sends `model_parameters`, its context and effort (each defaulting) are appended.
pub open spec fn with_variant(ctx: ExecContext, members: Seq<(String, JsonValue)>, model: Seq<char>) -> Seq<
    char,
> {
    if ctx.model_variant_defaults@.contains_key(model) && member_of(members, "model_parameters"@)
        is Some {
        let defaults = ctx.model_variant_defaults@[model];
        let context = match task_parameter_of(members, "context"@) {
            Some(c) => c,
            None => defaults.0@,
        };
        let effort = match task_parameter_of(members, "effort"@) {
            Some(e) => e,
            None => defaults.1@,
        };
        model + "-"@ + context + "-"@ + effort
    } else {
        model
    }
}

/// How a call is prepared: a call that is not a Task (any ASCII case) is unchanged; Task
/// arguments must be an object; a disabled Task is unchanged; otherwise the Task gets the
/// `model` it runs with (see [`task_model`] and [`with_variant`]), which must not be empty.
pub open spec fn prepared(ctx: ExecContext, call: ToolCall, r: Result<ToolCall, Error>) -> bool {
    if lower(call.name@) != "task"@ {
        r == Ok::<ToolCall, Error>(call)
    } else {
        match call.arguments {
            JsonValue::Object(members) => {
                let subagent_type = subagent_type_of(call.arguments);
                if disabled_task(ctx, call) {
                    r == Ok::<ToolCall, Error>(call)
                } else {
                    let model = with_variant(ctx, members@, task_model(ctx, members@, subagent_type));
                    if model.len() == 0 {
                        r matches Err(e) && is_protocol(
                            e,
                            "Task subagent type "@ + subagent_type + " has no model"@,
                        )
                    } else {
                        r matches Ok(p) && p.index == call.index && p.call_id == call.call_id
                            && p.model_call_id == call.model_call_id && p.name == call.name
                            && p.arguments_text == call.arguments_text && p.argument_error
                            == call.argument_error && match p.arguments {
                            JsonValue::Object(m) => exists|key: String, value: String|
                                key@ == "model"@ && value@ == model && m@ == with_member(
                                    members@,
                                    key,
                                    JsonValue::Text(value),
                                ),
                            _ => false,
                        }
                    }
                }
            },
            _ => r matches Err(e) && is_protocol(e, "Task arguments must be a JSON object"@),
        }
    }
}

impl ExecContext {
    /// Prepares a tool call (see [`prepared`]): a Task gets the model its subagent runs with.
    pub fn prepare_call(&self, call: ToolCall) -> (r: Result<ToolCall, Error>)
        ensures
            prepared(*self, call, r),
    {
        let name = crate::text::to_lower(call.name.as_str());
        if !crate::text::str_eq(name.as_str(), "task") {
            return Ok(call);
        }
        let disabled = self.task_disabled(&call);
        let ToolCall { index, call_id, model_call_id, name, arguments_text, arguments, argument_error } =
            call;
        let members = match arguments {
            JsonValue::Object(members) => members,
            _ => {
                return Err(
                    crate::error::protocol_message("Task arguments must be a JSON object"),
                );
            },
        };
        if disabled {
            return Ok(
                ToolCall {
                    index,
                    call_id,
                    model_call_id,
                    name,
                    arguments_text,
                    arguments: JsonValue::Object(members),
                    argument_error,
                },
            );
        }
        let subagent_type = match crate::json::text_member(&members, "subagent_type") {
            Some(t) => crate::text::copy(t),
            None => crate::text::copy("generalPurpose"),
        };
        let parent = match &self.default_subagent_model_variant {
            Some(v) => crate::text::copy(v.as_str()),
            None => crate::text::copy(self.default_subagent_model.as_str()),
        };
        let model = match self.subagent_model_for(subagent_type.as_str()) {
            Some(SubagentModel::Model(m)) => self.canonical_model(m.as_str()),
            Some(_) => parent,
            None => match crate::json::text_member(&members, "model") {
                Some(m) => if crate::text::str_eq(m, "inherit") {
                    parent
                } else {
                    self.canonical_model(m)
                },
                None => parent,
            },
        };
        let model = match self.model_variant_defaults.get(model.as_str()) {
            Some(defaults) => if crate::json::find_member(&members, "model_parameters").is_some() {
                let context = match task_parameter(&members, "context") {
                    Some(c) => c,
                    None => crate::text::copy(defaults.0.as_str()),
                };
                let effort = match task_parameter(&members, "effort") {
                    Some(e) => e,
                    None => crate::text::copy(defaults.1.as_str()),
                };
                let mut m = model;
                crate::text::push_str(&mut m, "-");
                crate::text::push_str(&mut m, context.as_str());
                crate::text::push_str(&mut m, "-");
                crate::text::push_str(&mut m, effort.as_str());
                m
            } else {
                model
            },
            None => model,
        };
        if model.as_str().is_empty() {
            let mut message = crate::text::copy("Task subagent type ");
            crate::text::push_str(&mut message, subagent_type.as_str());
            crate::text::push_str(&mut message, " has no model");
            return Err(Error::Protocol(message));
        }
        let key = crate::text::copy("model");
        let ghost k = key;
        let ghost v = model;
        let updated = crate::json::set_member(members, key, JsonValue::Text(model));
        Ok(
            ToolCall {
                index,
                call_id,
                model_call_id,
                name,
                arguments_text,
                arguments: JsonValue::Object(updated),
                argument_error,
            },
        )
    }
}

} // verus!
