use byok_server::configuration::ModelType;
use byok_server::directory::{insert_directory_model, ModelDirectory};
use byok_server::error::Error;
use byok_server::messages::{CanonicalMessage, Origin, Role};
use byok_server::model_config::{ModelConfig, ModelLatency, ModelSpec};
use byok_server::plugin::PluginModelDescriptor;
use byok_server::runtime::{SubagentKind, SubagentModel, SubagentModelOverride};
use byok_server::protocol::{
    Action, AgentRunRequest, ConversationAction, ConversationStateStructure, ExecutePlanAction,
    UserMessage, UserMessageAction,
};
use byok_server::run::{
    action, checkpoint_mode, exec_context, execute_plan, execution_run_id, execution_run_id_from,
    pending_tool_round_entry, resolve_run_model, run_action, runtime_event_parts, subagents_disabled,
    without_prompt_roots, RunAction, format_available_subagent_model,
    format_subagent_model_line, mode_from_proto, model_variant_id, override_model_slug,
    plugin_variant_axis, remove_local_semble_tools, request_conversation_id,
    resolve_plugin_model, validate_prompt_root, Mode, PromptSpec, ToolDefinition,
    AGENT_MODE_AGENT, AGENT_MODE_ASK, AGENT_MODE_PROJECT,
};

#[test]
fn remote_prompt_uses_cursor_mcp_instead_of_local_semble() {
    let mut prompt = PromptSpec {
        instructions: String::new(),
        tools: ["SembleSearch", "SembleFindRelated", "CallMcpTool"]
            .into_iter()
            .map(|name| ToolDefinition {
                name: name.into(),
                description: String::new(),
                parameters: r#"{"type":"object"}"#.into(),
            })
            .collect(),
    };

    remove_local_semble_tools(&mut prompt);

    assert_eq!(
        prompt
            .tools
            .iter()
            .map(|tool| tool.name.as_str())
            .collect::<Vec<_>>(),
        ["CallMcpTool"]
    );
}

fn configured_model() -> ModelConfig {
    ModelConfig {
        model_hash: "abcd1234".into(),
        sort_order: 0,
        display_name: "Configured Model".into(),
        group_name: None,
        enabled: true,
        model_type: ModelType::OpenAi,
        base_url: String::new(),
        use_full_url: false,
        api_key: String::new(),
        tooltip_data: String::new(),
        model_id: "provider-model".into(),
        reasoning_effort: Some("high".into()),
        effort_options: vec!["low".into(), "high".into()],
        context_options: vec!["272k".into(), "1m".into()],
        openai_endpoint: String::new(),
        openai_extra_params_enabled: false,
        openai_extra_params: "{}".into(),
        custom_headers_enabled: false,
        custom_headers: "{}".into(),
        anthropic_extra_params_enabled: false,
        anthropic_extra_params: "{}".into(),
        context_window_tokens: None,
        max_completion_tokens: None,
        anthropic_max_tokens: None,
        anthropic_thinking_effort: None,
        thinking_budget_tokens: None,
        created_at_ms: 0,
        updated_at_ms: 0,
    }
}

fn plugin_model() -> PluginModelDescriptor {
    PluginModelDescriptor {
        id: "plugin/codex/gpt-5".into(),
        plugin_id: "codex-plugin".into(),
        plugin_name: "Codex".into(),
        provider_id: "codex".into(),
        model_id: "gpt-5".into(),
        display_name: "GPT-5".into(),
        description: None,
        icon: String::new(),
        provider_type: "openai".into(),
        max_output_tokens: None,
        images: false,
        enabled: true,
        effort_options: vec!["low".into(), "high".into()],
        context_options: vec!["200k".into(), "1m".into()],
    }
}

#[test]
fn plugin_model_line_lists_the_effective_axes() {
    assert_eq!(
        format_subagent_model_line(
            &plugin_model().display_name,
            &plugin_model().effort_options,
            &plugin_model().context_options,
        ),
        "- GPT-5 \u{2014} reasoning: low, high; context: 200k, 1m"
    );
}

#[test]
fn resolve_plugin_model_accepts_exact_ids_and_variant_slugs() {
    let models = vec![plugin_model()];
    let (descriptor, _, parts) = resolve_plugin_model(&models, "plugin/codex/gpt-5").unwrap();
    assert_eq!(descriptor.id, "plugin/codex/gpt-5");
    assert!(parts.is_none());

    let (_, _, parts) = resolve_plugin_model(&models, "plugin/codex/gpt-5-1m-low").unwrap();
    let parts = parts.unwrap();
    assert_eq!(parts.context, "1m");
    assert_eq!(parts.effort.as_deref(), Some("low"));
    assert!(!parts.fast);

    let (_, _, parts) = resolve_plugin_model(&models, "PLUGIN/CODEX/GPT-5-1M-LOW-FAST").unwrap();
    assert!(parts.unwrap().fast);

    assert!(resolve_plugin_model(&models, "plugin/codex/gpt-5-2m-low").is_none());
    assert!(resolve_plugin_model(&models, "unknown").is_none());
}

#[test]
fn model_directory_resolves_plugin_aliases_and_variant_slugs() {
    let mut directory = ModelDirectory::new();
    let descriptor = plugin_model();
    insert_directory_model(
        &mut directory,
        &descriptor.id,
        &descriptor.display_name,
        &[&descriptor.id, &descriptor.display_name],
        plugin_variant_axis(&descriptor),
    );
    for key in [
        "plugin/codex/gpt-5",
        "gpt-5",
        "GPT-5",
        "plugin/codex/gpt-5-1m-low-fast",
    ] {
        let (base, _) = directory.resolve(key);
        assert_eq!(base, "plugin/codex/gpt-5", "key {key} must resolve");
    }
    let (base, parts) = directory.resolve("plugin/codex/gpt-5-1m-low-fast");
    let parts = parts.unwrap();
    assert_eq!(directory.display_names.get(&base).unwrap(), "GPT-5");
    assert!(parts.fast);
}

#[test]
fn plugin_inherited_variant_carries_the_selected_axes() {
    let descriptor = plugin_model();
    let mut selected = ModelSpec::new("ignored");
    selected.context_window_tokens = Some(1_000_000);
    selected.reasoning.effort = Some("low".into());
    selected.latency = ModelLatency::Fast;
    assert_eq!(
        model_variant_id(&plugin_variant_axis(&descriptor), &descriptor.id, &selected),
        Some("plugin/codex/gpt-5-1m-low-fast".into())
    );
}

#[test]
fn available_subagent_model_line_omits_the_hash() {
    let model = configured_model();
    assert_eq!(
        format_available_subagent_model(&model),
        "- Configured Model \u{2014} reasoning: low, high; context: 272k, 1m"
    );
    assert!(!format_available_subagent_model(&model).contains("abcd1234"));
}

#[test]
fn available_subagent_model_line_omits_empty_option_axes() {
    let mut model = configured_model();
    model.effort_options = Vec::new();
    assert_eq!(
        format_available_subagent_model(&model),
        "- Configured Model \u{2014} context: 272k, 1m"
    );
    model.context_options = Vec::new();
    assert_eq!(format_available_subagent_model(&model), "- Configured Model");
}

#[test]
fn inherited_variant_restores_fast_and_skips_the_effort_segment_without_a_reasoning_axis() {
    let mut selected = ModelSpec::new("ignored");
    selected.context_window_tokens = Some(1_000_000);
    selected.reasoning.effort = Some("high".into());
    selected.latency = ModelLatency::Fast;

    let model = configured_model();
    assert_eq!(
        model_variant_id(&model.variant_axis(), &model.model_hash, &selected),
        Some("abcd1234-1m-high-fast".into())
    );

    let mut without_effort = configured_model();
    without_effort.effort_options = Vec::new();
    assert_eq!(
        model_variant_id(
            &without_effort.variant_axis(),
            &without_effort.model_hash,
            &selected
        ),
        Some("abcd1234-1m-fast".into())
    );
}

#[test]
fn override_model_slug_bakes_the_configured_variant() {
    let directory = {
        let model = configured_model();
        let axis = model.variant_axis();
        let mut directory = ModelDirectory::new();
        directory
            .aliases
            .insert(model.model_hash.clone(), model.model_hash.clone());
        directory
            .display_names
            .insert(model.model_hash.clone(), model.display_name.clone());
        directory.variants.insert(model.model_hash.clone(), axis);
        directory
    };
    let mut spec = ModelSpec::new("abcd1234");
    spec.context_window_tokens = Some(272_000);
    spec.reasoning.effort = Some("LOW".into());
    spec.latency = ModelLatency::Fast;

    assert_eq!(override_model_slug(&spec, &directory), "abcd1234-272k-low-fast");
    let unknown = ModelSpec::new("other-model");
    assert_eq!(override_model_slug(&unknown, &directory), "other-model");
}

#[test]
fn restored_system_root_is_structural_not_bound_to_the_next_model() {
    let prompt = || {
        CanonicalMessage::text(
            "root",
            Role::System,
            Origin::Prompt,
            "prompt from the previous model",
        )
    };
    validate_prompt_root(std::slice::from_ref(&prompt())).unwrap();
    assert!(validate_prompt_root(&[prompt(), prompt()]).is_err());
}

#[test]
fn unsupported_cursor_mode_is_not_silently_treated_as_agent() {
    assert_eq!(mode_from_proto(AGENT_MODE_AGENT).unwrap(), Mode::Agent);
    assert_eq!(mode_from_proto(AGENT_MODE_PROJECT).unwrap(), Mode::Projects);
    assert!(mode_from_proto(99).is_err());
}

#[test]
fn execution_run_id_keeps_the_request_id_and_adds_eight_uuid_hex_digits() {
    let run_id = execution_run_id("01bba7c5-9c00-4922-b1df-1f58146b5d90");
    let suffix = run_id
        .as_str()
        .strip_prefix("01bba7c5-9c00-4922-b1df-1f58146b5d90:")
        .unwrap();

    assert_eq!(suffix.len(), 8);
    assert!(suffix.bytes().all(|byte| byte.is_ascii_hexdigit()));
}

fn user_request(
    state_mode: Option<i32>,
    text: &str,
    message_id: &str,
    mode: i32,
) -> AgentRunRequest {
    AgentRunRequest {
        conversation_state: state_mode.map(|mode| ConversationStateStructure::new(Some(mode))),
        action: Some(ConversationAction {
            action: Some(Action::UserMessageAction(UserMessageAction {
                user_message: Some(UserMessage::new(text, message_id, mode)),
                prepend_user_messages: Vec::new(),
            })),
        }),
        conversation_id: None,
        conversation_group_id: None,
        subagent_type_name: None,
        requested_model: None,
        model_details: None,
        subagent_model_overrides: Vec::new(),
    }
}

#[test]
fn current_user_message_consumes_the_mode_instead_of_history_mode() {
    let request = user_request(Some(AGENT_MODE_AGENT), "explain", "user-message", AGENT_MODE_ASK);
    let projection = action(&request).unwrap();
    assert_eq!(projection.mode, AGENT_MODE_ASK);
    assert_eq!(projection.input_id.as_deref(), Some("cursor:user:user-message"));
    assert_eq!(mode_from_proto(projection.mode).unwrap(), Mode::Ask);
}

#[test]
fn queued_user_message_without_mode_inherits_conversation_mode() {
    let request = user_request(Some(AGENT_MODE_AGENT), "queued follow-up", "queued-user-message", 0);

    let projection = action(&request).unwrap();

    assert_eq!(projection.mode, AGENT_MODE_AGENT);
    assert_eq!(mode_from_proto(projection.mode).unwrap(), Mode::Agent);
}

#[test]
fn queued_messages_keep_distinct_input_anchors_until_runtime_identity_is_compiled() {
    let request =
        |message_id: &str| user_request(None, "queued follow-up", message_id, AGENT_MODE_AGENT);

    let first = action(&request("message-one")).unwrap();
    let second = action(&request("message-two")).unwrap();

    assert_eq!(first.event_id, None);
    assert_eq!(second.event_id, None);
    assert_eq!(first.input_id.as_deref(), Some("cursor:user:message-one"));
    assert_eq!(second.input_id.as_deref(), Some("cursor:user:message-two"));
    assert_ne!(first.input_id, second.input_id);
}

fn empty_request() -> AgentRunRequest {
    AgentRunRequest {
        conversation_state: None,
        action: None,
        conversation_id: None,
        conversation_group_id: None,
        subagent_type_name: None,
        requested_model: None,
        model_details: None,
        subagent_model_overrides: Vec::new(),
    }
}

#[test]
fn missing_conversation_id_is_scoped_to_the_request() {
    let request = empty_request();
    assert_eq!(request_conversation_id("request-1", &request).as_str(), "request-1");
    assert_eq!(request_conversation_id("request-2", &request).as_str(), "request-2");
}

fn plan_action(content: Option<&str>, uri: Option<&str>) -> ExecutePlanAction {
    ExecutePlanAction {
        plan_file_content: content.map(Into::into),
        plan: None,
        plan_file_uri: uri.map(Into::into),
        plan_file_path: None,
        execution_mode: AGENT_MODE_AGENT,
        plan_id: None,
        kickoff_message_id: None,
    }
}

#[test]
fn execute_plan_appends_the_approved_plan_as_a_stable_runtime_event() {
    let request = || AgentRunRequest {
        action: Some(ConversationAction {
            action: Some(Action::ExecutePlanAction(plan_action(
                Some("# Build\n\n- implement it"),
                Some("file:///workspace/example.plan.md"),
            ))),
        }),
        ..empty_request()
    };

    let first = action(&request()).unwrap();
    let second = action(&request()).unwrap();
    assert_eq!(first.mode, AGENT_MODE_AGENT);
    assert!(first.starts_turn);
    assert_eq!(first.event_id, second.event_id);
    assert_eq!(first.input_id, None);
    assert_eq!(
        first.turn_user.as_ref().map(|user| user.text.as_str()),
        Some("Execute the approved plan.")
    );
    assert!(first.action_context.contains("file:///workspace/example.plan.md"));
    assert!(first.action_context.contains("# Build\n\n- implement it"));
}

#[test]
fn execute_plan_requires_content() {
    let result = execute_plan(&plan_action(None, None));
    assert!(matches!(
        result,
        Err(Error::Protocol(message)) if message.contains("missing plan content")
    ));
}

#[test]
fn a_runs_tool_context_follows_the_request_and_the_settings() {
    let request = AgentRunRequest {
        conversation_group_id: Some("group".into()),
        ..empty_request()
    };
    let overrides = vec![
        (SubagentKind::GeneralPurpose, SubagentModelOverride::Inherit),
        (SubagentKind::Named("explore".into()), SubagentModelOverride::Explicit(ModelSpec::new("other-model"))),
        (SubagentKind::GeneralPurpose, SubagentModelOverride::Disabled),
    ];
    let context = exec_context(
        &request,
        "conversation",
        "model-hash",
        Some("1m".into()),
        &ModelDirectory::new(),
        &overrides,
        Some("/tmp/terminals".into()),
        vec!["rm -rf".into()],
        Vec::new(),
    );
    assert_eq!(context.conversation_id, "conversation");
    assert_eq!(context.root_conversation_id, "group");
    assert_eq!(context.default_subagent_model, "model-hash");
    assert_eq!(context.default_subagent_model_variant.as_deref(), Some("1m"));
    assert!(context.allow_subagents);
    assert_eq!(context.terminals_folder, "/tmp/terminals");
    assert_eq!(context.admin_command_denylist, ["rm -rf"]);
    assert!(matches!(context.subagent_models.get("generalPurpose"), Some(SubagentModel::Disabled)));
    assert!(matches!(context.subagent_models.get("explore"), Some(SubagentModel::Model(m)) if m == "other-model"));

    let subagent = AgentRunRequest { subagent_type_name: Some("explore".into()), ..empty_request() };
    let context = exec_context(
        &subagent,
        "conversation",
        "model-hash",
        None,
        &ModelDirectory::new(),
        &Vec::new(),
        None,
        Vec::new(),
        Vec::new(),
    );
    assert_eq!(context.root_conversation_id, "conversation");
    assert!(!context.allow_subagents);
    assert_eq!(context.terminals_folder, "");
}

#[test]
fn a_run_compacts_starts_or_resumes() {
    assert!(matches!(run_action(true, true, None), RunAction::Compact));
    assert!(matches!(run_action(false, true, None), RunAction::Start));
    assert!(matches!(
        run_action(false, false, Some("round".into())),
        RunAction::Resume { pending_tool_round: Some(round) } if round == "round"
    ));
}

#[test]
fn a_resume_continues_at_most_one_pending_round() {
    let none: Vec<String> = Vec::new();
    let one = vec!["{}".to_owned()];
    let two = vec!["{}".to_owned(), "{}".to_owned()];
    assert_eq!(pending_tool_round_entry(false, false, &none).unwrap(), None);
    assert_eq!(pending_tool_round_entry(false, false, &one).unwrap().map(String::as_str), Some("{}"));
    assert_eq!(pending_tool_round_entry(true, false, &two).unwrap(), None);
    assert_eq!(pending_tool_round_entry(false, true, &two).unwrap(), None);
    match pending_tool_round_entry(false, false, &two) {
        Err(Error::Protocol(message)) => {
            assert_eq!(message, "Cursor resume contains 2 pending assistant messages")
        }
        _ => panic!("expected a protocol error"),
    }
}

#[test]
fn a_subagent_checkpoint_uses_the_subagent_mode() {
    let subagent = AgentRunRequest { subagent_type_name: Some("explore".into()), ..empty_request() };
    assert_eq!(checkpoint_mode(&subagent, 0).unwrap(), Mode::Subagent);
    assert_eq!(checkpoint_mode(&empty_request(), AGENT_MODE_ASK).unwrap(), Mode::Ask);
    assert!(checkpoint_mode(&empty_request(), 0).is_err());
}

#[test]
fn subagents_are_disabled_only_when_every_override_disables() {
    assert!(!subagents_disabled(&Vec::new()));
    assert!(subagents_disabled(&vec![
        (SubagentKind::GeneralPurpose, SubagentModelOverride::Disabled),
        (SubagentKind::Named("explore".into()), SubagentModelOverride::Disabled),
    ]));
    assert!(!subagents_disabled(&vec![
        (SubagentKind::GeneralPurpose, SubagentModelOverride::Disabled),
        (SubagentKind::Named("explore".into()), SubagentModelOverride::Inherit),
    ]));
}

#[test]
fn restored_history_loses_its_prompt_roots() {
    let messages = vec![
        CanonicalMessage::text("root", Role::System, Origin::Prompt, "prompt"),
        CanonicalMessage::text("rule", Role::System, Origin::Runtime, "rule"),
        CanonicalMessage::text("user", Role::User, Origin::User, "hello"),
    ];
    let kept = without_prompt_roots(messages);
    assert_eq!(kept.len(), 2);
    assert_eq!(kept[0].id, "rule");
    assert_eq!(kept[1].id, "user");
}

#[test]
fn a_runtime_event_needs_both_its_user_message_and_its_id() {
    let user = Some(UserMessage::new("hi", "m", AGENT_MODE_AGENT));
    let event = Some("event".to_owned());
    assert!(matches!(runtime_event_parts(&user, &event), Ok(Some((u, e))) if u.text == "hi" && e == "event"));
    assert!(matches!(runtime_event_parts(&None, &None), Ok(None)));
    match runtime_event_parts(&user, &None) {
        Err(Error::Protocol(message)) => assert_eq!(message, "Cursor action has an incomplete runtime event"),
        _ => panic!("expected a protocol error"),
    }
    assert!(runtime_event_parts(&None, &event).is_err());
}

#[test]
fn a_run_resolves_its_configured_model_and_variant() {
    let configured = configured_model();
    let (model, inherited) = resolve_run_model(ModelSpec::new("abcd1234-1m-low-fast"), Some(&configured), &[]);
    assert_eq!(model.model_id, "abcd1234");
    assert_eq!(model.display_name.as_deref(), Some("Configured Model"));
    assert_eq!(model.context_window_tokens, Some(1_000_000));
    assert_eq!(model.reasoning.effort.as_deref(), Some("low"));
    assert_eq!(model.latency, ModelLatency::Fast);
    assert_eq!(inherited.as_deref(), Some("abcd1234-1m-low-fast"));

    let (plain, inherited) = resolve_run_model(ModelSpec::new("abcd1234"), Some(&configured), &[]);
    assert_eq!(plain.model_id, "abcd1234");
    assert_eq!(plain.reasoning.effort.as_deref(), Some("high"));
    assert_eq!(inherited, None);
}

#[test]
fn a_run_without_a_configured_model_resolves_plugin_models() {
    let plugins = vec![plugin_model()];
    let (model, inherited) =
        resolve_run_model(ModelSpec::new("plugin/codex/gpt-5-1m-high"), None, &plugins);
    assert_eq!(model.model_id, "plugin/codex/gpt-5");
    assert_eq!(model.context_window_tokens, Some(1_000_000));
    assert_eq!(model.reasoning.effort.as_deref(), Some("high"));
    assert_eq!(inherited.as_deref(), Some("plugin/codex/gpt-5-1m-high"));

    let (unknown, inherited) = resolve_run_model(ModelSpec::new("hosted-model"), None, &plugins);
    assert_eq!(unknown.model_id, "hosted-model");
    assert_eq!(inherited, None);
}

#[test]
fn an_execution_run_id_takes_the_first_eight_characters_of_the_identifier() {
    assert_eq!(
        execution_run_id_from("req-1", "0123456789abcdef0123456789abcdef"),
        "req-1:01234567"
    );
}
