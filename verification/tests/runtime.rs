use byok_server::json::JsonValue;
use byok_server::runtime::{
    is_orchestration_tool, subagent_kind, ExecContext, SubagentKind, SubagentModel, ToolCall,
};

fn text(value: &str) -> JsonValue {
    JsonValue::Text(value.into())
}

fn object(members: Vec<(&str, JsonValue)>) -> JsonValue {
    JsonValue::Object(
        members
            .into_iter()
            .map(|(name, value)| (name.to_owned(), value))
            .collect(),
    )
}

fn task(arguments: JsonValue) -> ToolCall {
    ToolCall {
        index: 0,
        call_id: "task-1".into(),
        model_call_id: "model-call-1".into(),
        name: "Task".into(),
        arguments_text: String::new(),
        arguments,
        argument_error: None,
    }
}

fn model_of(call: &ToolCall) -> Option<String> {
    let JsonValue::Object(members) = &call.arguments else {
        panic!("arguments must be an object");
    };
    members
        .iter()
        .find(|(name, _)| name == "model")
        .map(|(_, value)| match value {
            JsonValue::Text(model) => model.clone(),
            _ => panic!("model must be a string"),
        })
}

#[test]
fn inherited_task_keeps_the_parent_model_variant() {
    let mut context = ExecContext {
        default_subagent_model: "deepseek-hash".into(),
        default_subagent_model_variant: Some("deepseek-hash-1m-max".into()),
        ..ExecContext::default()
    };
    context
        .model_variant_defaults
        .insert("deepseek-hash".into(), ("1m".into(), "high".into()));
    let call = task(object(vec![("prompt", text("inspect")), ("model", text("inherit"))]));

    assert_eq!(
        model_of(&context.prepare_call(call).unwrap()).as_deref(),
        Some("deepseek-hash-1m-max")
    );
}

#[test]
fn model_aliases_canonicalize_display_names_and_slugs() {
    let mut context = ExecContext {
        default_subagent_model: "parent-model".into(),
        ..ExecContext::default()
    };
    for (alias, model) in [
        ("DeepSeek Flash", "hash-deepseek"),
        ("deepseek flash", "hash-deepseek"),
        ("hash-deepseek-1m-low", "hash-deepseek"),
    ] {
        context.model_aliases.insert(alias.into(), model.into());
    }
    context
        .model_variant_defaults
        .insert("hash-deepseek".into(), ("1m".into(), "high".into()));
    for model in ["DeepSeek Flash", "hash-deepseek-1m-low"] {
        let call = task(object(vec![("prompt", text("inspect")), ("model", text(model))]));
        assert_eq!(
            model_of(&context.prepare_call(call).unwrap()).as_deref(),
            Some("hash-deepseek")
        );
    }
    let parameterized = task(object(vec![
        ("prompt", text("inspect")),
        ("model", text("DeepSeek Flash")),
        (
            "model_parameters",
            JsonValue::Array(vec![object(vec![("id", text("effort")), ("value", text("low"))])]),
        ),
    ]));
    assert_eq!(
        model_of(&context.prepare_call(parameterized).unwrap()).as_deref(),
        Some("hash-deepseek-1m-low")
    );
}

#[test]
fn task_model_defaults_to_parent_and_honors_an_explicit_model() {
    let context = ExecContext {
        default_subagent_model: "parent-model".into(),
        ..ExecContext::default()
    };
    let inherited = context
        .prepare_call(task(object(vec![("prompt", text("inspect"))])))
        .unwrap();
    let explicit = context
        .prepare_call(task(object(vec![
            ("prompt", text("inspect")),
            ("model", text("child-model")),
        ])))
        .unwrap();

    assert_eq!(model_of(&inherited).as_deref(), Some("parent-model"));
    assert_eq!(model_of(&explicit).as_deref(), Some("child-model"));
}

#[test]
fn subagent_models_are_selected_by_task_type() {
    let mut context = ExecContext {
        default_subagent_model: "parent-model".into(),
        ..ExecContext::default()
    };
    context.set_subagent_model(
        SubagentKind::Named("explore".into()),
        SubagentModel::Model("explore-model".into()),
    );
    context.set_subagent_model(SubagentKind::Named("shell".into()), SubagentModel::Inherit);
    let explore = task(object(vec![
        ("prompt", text("inspect")),
        ("subagent_type", text("explore")),
        ("model", text("gpt-5.6-sol")),
    ]));
    let shell = task(object(vec![
        ("prompt", text("inspect")),
        ("subagent_type", text("shell")),
        ("model", text("k3-256k")),
    ]));

    assert_eq!(
        model_of(&context.prepare_call(explore).unwrap()).as_deref(),
        Some("explore-model")
    );
    assert_eq!(
        model_of(&context.prepare_call(shell).unwrap()).as_deref(),
        Some("parent-model")
    );
}

#[test]
fn disabled_subagent_type_only_disables_that_type() {
    let mut context = ExecContext {
        default_subagent_model: "parent-model".into(),
        ..ExecContext::default()
    };
    context.set_subagent_model(SubagentKind::Named("shell".into()), SubagentModel::Disabled);
    let shell = || {
        task(object(vec![
            ("prompt", text("inspect")),
            ("subagent_type", text("shell")),
        ]))
    };
    let explore = || {
        task(object(vec![
            ("prompt", text("inspect")),
            ("subagent_type", text("explore")),
        ]))
    };

    assert!(context.task_disabled(&shell()));
    assert!(!context.task_disabled(&explore()));
    assert!(model_of(&context.prepare_call(shell()).unwrap()).is_none());
    assert_eq!(
        model_of(&context.prepare_call(explore()).unwrap()).as_deref(),
        Some("parent-model")
    );
}

#[test]
fn orchestration_tools_are_recognized_by_name() {
    assert!(is_orchestration_tool("Task"));
    assert!(!is_orchestration_tool("Shell"));
    assert!(matches!(subagent_kind("generalPurpose"), SubagentKind::GeneralPurpose));
    assert!(matches!(subagent_kind("explore"), SubagentKind::Named(name) if name == "explore"));
}
