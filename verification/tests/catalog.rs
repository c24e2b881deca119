use byok_server::catalog::{
    available_model, context_options, default_model_details, default_model_nudge_response,
    default_model_response, merge_catalog_body, published_models, usable_model,
    usable_plugin_model, Credentials, CLI_LOCAL_MODEL_API_KEY,
};
use byok_server::configuration::{ModelType, OPENAI_CHAT_ENDPOINT};
use byok_server::model_config::ModelConfig;
use byok_server::plugin::PluginModelDescriptor;

fn model() -> ModelConfig {
    ModelConfig {
        model_hash: "local-model-hash".into(),
        sort_order: 0,
        display_name: "Local Model".into(),
        group_name: None,
        enabled: true,
        model_type: ModelType::OpenAi,
        base_url: "https://provider.example/v1/chat/completions".into(),
        use_full_url: true,
        api_key: "provider-secret".into(),
        tooltip_data: "Local Model".into(),
        model_id: "upstream-model".into(),
        reasoning_effort: None,
        effort_options: vec![],
        context_options: vec![],
        openai_endpoint: OPENAI_CHAT_ENDPOINT.into(),
        openai_extra_params_enabled: false,
        openai_extra_params: "{}".into(),
        custom_headers_enabled: false,
        custom_headers: "{}".into(),
        anthropic_extra_params_enabled: false,
        anthropic_extra_params: "{}".into(),
        context_window_tokens: None,
        max_completion_tokens: None,
        anthropic_max_tokens: None,
        anthropic_thinking_effort: None,
        thinking_budget_tokens: None,
        created_at_ms: 0,
        updated_at_ms: 0,
    }
}

#[test]
fn cli_model_details_use_local_routing_credentials() {
    let details = usable_model(&model());
    assert_eq!(details.model_id, "local-model-hash");
    assert_eq!(details.display_name, "Local Model");
    let Credentials::ApiKeyCredentials(credentials) = details.credentials.expect("API credentials");
    assert_eq!(credentials.api_key, CLI_LOCAL_MODEL_API_KEY);
    assert_eq!(credentials.base_url, None);
    assert_ne!(credentials.api_key, "provider-secret");
}

#[test]
fn cli_plugin_model_details_use_local_routing_credentials() {
    let details = usable_plugin_model(&PluginModelDescriptor {
        id: "plugin:test/provider/model".into(),
        plugin_id: "plugin:test".into(),
        plugin_name: "Test Plugin".into(),
        provider_id: "provider".into(),
        model_id: "model".into(),
        display_name: "Plugin Model".into(),
        description: None,
        icon: String::new(),
        provider_type: "test".into(),
        max_output_tokens: None,
        images: false,
        enabled: true,
        effort_options: Vec::new(),
        context_options: Vec::new(),
    });
    assert_eq!(details.model_id, "plugin:test/provider/model");
    let Credentials::ApiKeyCredentials(credentials) = details.credentials.expect("API credentials");
    assert_eq!(credentials.api_key, CLI_LOCAL_MODEL_API_KEY);
    assert_eq!(credentials.base_url, None);
}

#[test]
fn cli_default_responses_use_the_local_model_hash() {
    let models = vec![model()];
    let details = default_model_details(&models, &[]).expect("default model");
    assert_eq!(details.model_id, "local-model-hash");

    let response = default_model_response(&models, &[]);
    assert_eq!(response.model, "local-model-hash");
    assert_eq!(response.thinking_model, "local-model-hash");

    let nudge = default_model_nudge_response(&models, &[]);
    assert_eq!(nudge.models_with_no_default_switch, vec!["local-model-hash"]);
}

#[test]
fn disabled_models_are_not_published_to_cursor() {
    let published = published_models(vec![
        ModelConfig {
            enabled: false,
            ..model()
        },
        model(),
    ]);
    assert_eq!(published.len(), 1);
    assert!(published[0].enabled);

    let none = published_models(vec![ModelConfig {
        enabled: false,
        ..model()
    }]);
    assert!(default_model_details(&none, &[]).is_none());
}

fn pair(value: &str, name: &str) -> (String, String) {
    (value.into(), name.into())
}

#[test]
fn configured_context_leads_and_dedupes_the_options() {
    let configured = vec!["200k".to_owned(), "356k".to_owned(), "1m".to_owned()];

    let options = context_options(&ModelConfig {
        context_window_tokens: Some(200_000),
        context_options: configured.clone(),
        ..model()
    });
    assert_eq!(options[0], pair("200k", "200K"));
    assert_eq!(options.iter().filter(|(v, _)| v == "200k").count(), 1);

    let options = context_options(&ModelConfig {
        context_window_tokens: Some(272_000),
        context_options: configured.clone(),
        ..model()
    });
    assert_eq!(options[0], pair("272000", "272K"));
    assert_eq!(options[1], pair("200k", "200K"));
    assert_eq!(options.len(), configured.len() + 1);

    let options = context_options(&ModelConfig {
        context_window_tokens: None,
        context_options: configured.clone(),
        ..model()
    });
    assert_eq!(options.len(), configured.len());
    assert_eq!(options[0], pair("200k", "200K"));
}

#[test]
fn maps_byok_model_to_cursor_catalog_fields() {
    let model = ModelConfig {
        model_hash: "33ceed20".into(),
        sort_order: 0,
        display_name: "DeepSeek V4 Flash".into(),
        group_name: None,
        enabled: true,
        model_type: ModelType::OpenAi,
        base_url: "https://example.com/v1/responses".into(),
        use_full_url: true,
        api_key: "secret".into(),
        tooltip_data: "DeepSeek V4 Flash".into(),
        model_id: "deepseek-v4-flash".into(),
        reasoning_effort: None,
        effort_options: vec!["low".into(), "high".into()],
        context_options: vec!["272k".into(), "1m".into()],
        openai_endpoint: "/v1/responses".into(),
        openai_extra_params_enabled: false,
        openai_extra_params: "{}".into(),
        custom_headers_enabled: false,
        custom_headers: "{}".into(),
        anthropic_extra_params_enabled: false,
        anthropic_extra_params: "{}".into(),
        context_window_tokens: Some(272_000),
        max_completion_tokens: None,
        anthropic_max_tokens: None,
        anthropic_thinking_effort: None,
        thinking_budget_tokens: None,
        created_at_ms: 0,
        updated_at_ms: 0,
    };

    let mapped = available_model(&model);
    assert_eq!(mapped.name, "33ceed20");
    assert!(mapped.default_on);
    assert_eq!(mapped.supports_agent, Some(true));
    assert_eq!(mapped.degradation_status, Some(0));
    assert_eq!(mapped.supports_thinking, Some(true));
    assert_eq!(mapped.supports_images, Some(true));
    assert_eq!(mapped.supports_max_mode, Some(true));
    assert_eq!(mapped.context_token_limit, Some(272_000));
    assert_eq!(mapped.context_token_limit_for_max_mode, Some(272_000));
    assert_eq!(mapped.supports_non_max_mode, Some(true));
    assert_eq!(mapped.supports_plan_mode, Some(true));
    assert_eq!(mapped.supports_sandboxing, Some(true));
    assert_eq!(mapped.supports_cmd_k, Some(false));
    assert_eq!(mapped.client_display_name.as_deref(), Some("DeepSeek V4 Flash"));
    assert_eq!(mapped.server_model_name.as_deref(), Some("33ceed20"));
    assert_eq!(mapped.named_model_section_index, Some(1));
    assert_eq!(
        mapped
            .tooltip_data
            .as_ref()
            .and_then(|tooltip| tooltip.markdown_content.as_deref()),
        Some("**Default context:** 272K  \nDeepSeek V4 Flash")
    );
    assert_eq!(mapped.vendor_name.as_deref(), Some("cursor"));
    assert_eq!(mapped.parameter_definitions.len(), 3);
    let enum_values = |id: &str| {
        mapped
            .parameter_definitions
            .iter()
            .find(|parameter| parameter.id == id)
            .unwrap()
            .parameter_type
            .as_ref()
            .unwrap()
            .enum_parameter
            .as_ref()
            .unwrap()
            .values
            .iter()
            .map(|value| value.value.clone())
            .collect::<Vec<_>>()
    };
    assert_eq!(enum_values("context"), ["272k", "1m"]);
    assert_eq!(enum_values("reasoning"), ["low", "high"]);
    assert_eq!(mapped.variants.len(), 8);
    assert_eq!(mapped.legacy_slugs.len(), 8);
    assert_eq!(mapped.model_picker_badges.len(), 1);
    assert_eq!(mapped.model_picker_badges[0].label, "example.com");
    assert!(!mapped.model_picker_badges[0].dismiss_on_selection);
    let default = mapped
        .variants
        .iter()
        .find(|variant| variant.is_default_non_max_config == Some(true))
        .unwrap();
    assert_eq!(
        default.variant_string_representation.as_deref(),
        Some("33ceed20[context=272k,reasoning=high,fast=false]")
    );
    assert_eq!(
        default
            .parameter_values
            .iter()
            .map(|parameter| parameter.id.as_str())
            .collect::<Vec<_>>(),
        vec!["context", "reasoning", "fast"]
    );
    assert_eq!(mapped.vendor.as_ref().unwrap().display_name, "Cursor");
    assert!(usable_model(&model).thinking_details.is_some());
}

fn encoded_addition(name: &str) -> Vec<u8> {
    let mut bytes = vec![0x0au8, name.len() as u8];
    bytes.extend_from_slice(name.as_bytes());
    bytes
}

#[test]
fn appends_models_without_reencoding_official_fields() {
    // Unknown field 99 = 7 stands in for every official field this library does not know.
    let official = [0x98u8, 0x06, 0x07];
    let addition = encoded_addition("f246010a");
    let merged = merge_catalog_body(true, &official, &addition).unwrap();
    assert_eq!(&merged[..official.len()], &official);
    assert_eq!(&merged[official.len()..], &addition);
}

#[test]
fn updates_connect_length_when_catalog_is_framed() {
    let official = [0x98u8, 0x06, 0x07];
    let mut framed = vec![0u8];
    framed.extend_from_slice(&(official.len() as u32).to_be_bytes());
    framed.extend_from_slice(&official);
    let merged = merge_catalog_body(true, &framed, &[0x0a, 0x01, b'x']).unwrap();
    assert_eq!(merged.len(), 11);
    assert_eq!(u32::from_be_bytes(merged[1..5].try_into().unwrap()), 6);
    assert_eq!(&merged[5..8], &official);
}

#[test]
fn returns_local_catalog_when_upstream_rejects_request() {
    let local = encoded_addition("f246010a");
    let merged = merge_catalog_body(false, b"not logged in", &local).unwrap();
    assert_eq!(merged, local);
}

#[test]
fn the_catalog_additions_list_configured_then_plugin_models() {
    let configured = vec![model()];
    let plugins: Vec<byok_server::plugin::PluginModelDescriptor> = Vec::new();
    let addition = byok_server::catalog::available_models_addition(&configured, &plugins);
    assert_eq!(addition.model_names, [model().model_hash]);
    assert_eq!(addition.models[0].name, model().model_hash);
    assert_eq!(addition.models.len(), 1);
    let usable = byok_server::catalog::usable_models_addition(&configured, &plugins);
    assert_eq!(usable.len(), 1);
}
