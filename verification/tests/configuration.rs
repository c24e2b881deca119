use byok_server::configuration::{
    ModelType, ModelVariantAxis, ModelVariantParts, OPENAI_CHAT_ENDPOINT,
    OPENAI_RESPONSES_ENDPOINT,
};
use byok_server::error::Error;
use byok_server::model_config::{
    default_context_options, default_effort_options, model_hash, normalize_model_input,
    ModelConfig, ModelConfigInput, ModelSpec,
};
use byok_server::request_url::resolve_request_url;
use sha2::{Digest, Sha256};

fn provider(context_window_tokens: Option<u64>) -> ModelConfig {
    ModelConfig {
        model_hash: "12345678".into(),
        sort_order: 0,
        display_name: "Test".into(),
        group_name: None,
        enabled: true,
        model_type: ModelType::OpenAi,
        base_url: "https://provider.example/v1/chat/completions".into(),
        use_full_url: true,
        api_key: "provider-secret".into(),
        tooltip_data: "Test".into(),
        model_id: "upstream-model".into(),
        reasoning_effort: None,
        effort_options: Vec::new(),
        context_options: Vec::new(),
        openai_endpoint: OPENAI_CHAT_ENDPOINT.into(),
        openai_extra_params_enabled: false,
        openai_extra_params: "{}".into(),
        custom_headers_enabled: false,
        custom_headers: "{}".into(),
        anthropic_extra_params_enabled: false,
        anthropic_extra_params: "{}".into(),
        context_window_tokens,
        max_completion_tokens: None,
        anthropic_max_tokens: None,
        anthropic_thinking_effort: None,
        thinking_budget_tokens: None,
        created_at_ms: 0,
        updated_at_ms: 0,
    }
}

#[test]
fn configured_context_window_has_priority_over_cursor_selection() {
    let provider = provider(Some(200_000));

    let mut selected = ModelSpec::new("12345678");
    selected.context_window_tokens = Some(800_000);
    provider.configure(&mut selected);
    assert_eq!(selected.context_window_tokens, Some(200_000));

    let mut defaulted = ModelSpec::new("12345678");
    provider.configure(&mut defaulted);
    assert_eq!(defaulted.context_window_tokens, Some(200_000));
}

fn input() -> ModelConfigInput {
    ModelConfigInput {
        sort_order: 1,
        display_name: "Model A".into(),
        group_name: None,
        model_type: ModelType::OpenAi,
        base_url: "https://example.com/custom/generate".into(),
        use_full_url: true,
        api_key: "secret".into(),
        tooltip_data: "Model A".into(),
        model_id: "model-a".into(),
        reasoning_effort: Some("high".into()),
        effort_options: default_effort_options(),
        context_options: default_context_options(),
        openai_endpoint: OPENAI_RESPONSES_ENDPOINT.into(),
        openai_extra_params_enabled: false,
        openai_extra_params: "{}".into(),
        custom_headers_enabled: false,
        custom_headers: "{}".into(),
        anthropic_extra_params_enabled: false,
        anthropic_extra_params: "{}".into(),
        context_window_tokens: Some(200_000),
        max_completion_tokens: None,
        anthropic_max_tokens: None,
        anthropic_thinking_effort: None,
        thinking_budget_tokens: None,
    }
}

#[test]
fn normalize_model_input_lowercases_effort_options() {
    let mut input = input();
    input.effort_options = vec!["LOW".into(), "High".into()];

    let normalized = normalize_model_input(&input).unwrap();

    assert_eq!(normalized.effort_options, vec!["low", "high"]);
}

#[test]
fn hash_covers_url_model_key_name_and_endpoint() {
    let input = input();
    let expected = Sha256::digest(
        "https://example.com/custom/generate\nmodel-a\nsecret\nModel A\n/v1/responses".as_bytes(),
    );
    assert_eq!(model_hash(&input).unwrap(), hex::encode(&expected[..8]));
}

#[test]
fn request_url_is_exact_and_protocol_does_not_depend_on_its_path() {
    assert_eq!(
        resolve_request_url(
            ModelType::OpenAi,
            "https://example.com/custom/generate?api-version=2026-01-01",
            OPENAI_RESPONSES_ENDPOINT,
            true,
        )
        .unwrap(),
        "https://example.com/custom/generate?api-version=2026-01-01"
    );
    assert_eq!(
        resolve_request_url(
            ModelType::OpenAi,
            "https://example.com/another/arbitrary/path",
            OPENAI_CHAT_ENDPOINT,
            true,
        )
        .unwrap(),
        "https://example.com/another/arbitrary/path"
    );
    assert_eq!(
        resolve_request_url(ModelType::Anthropic, "https://example.com/anthropic", "", true).unwrap(),
        "https://example.com/anthropic"
    );
    assert_eq!(
        resolve_request_url(ModelType::Anthropic, "https://example.com/anthropic/", "", true)
            .unwrap(),
        "https://example.com/anthropic/"
    );
    assert_eq!(
        resolve_request_url(
            ModelType::OpenAi,
            "https://example.com/v1",
            OPENAI_RESPONSES_ENDPOINT,
            false,
        )
        .unwrap(),
        "https://example.com/v1/responses"
    );
    assert_eq!(
        resolve_request_url(ModelType::Anthropic, "https://example.com/v1", "", false).unwrap(),
        "https://example.com/v1/messages"
    );
}

#[test]
fn configured_context_window_fills_missing_client_value() {
    let input = input();
    let config = ModelConfig {
        model_hash: "hash".into(),
        sort_order: input.sort_order,
        display_name: input.display_name,
        group_name: None,
        enabled: true,
        model_type: input.model_type,
        base_url: input.base_url,
        use_full_url: input.use_full_url,
        api_key: input.api_key,
        tooltip_data: input.tooltip_data,
        model_id: input.model_id,
        reasoning_effort: input.reasoning_effort,
        effort_options: input.effort_options.clone(),
        context_options: input.context_options.clone(),
        openai_endpoint: input.openai_endpoint,
        openai_extra_params_enabled: input.openai_extra_params_enabled,
        openai_extra_params: input.openai_extra_params,
        custom_headers_enabled: input.custom_headers_enabled,
        custom_headers: input.custom_headers,
        anthropic_extra_params_enabled: input.anthropic_extra_params_enabled,
        anthropic_extra_params: input.anthropic_extra_params,
        context_window_tokens: Some(350_000),
        max_completion_tokens: input.max_completion_tokens,
        anthropic_max_tokens: input.anthropic_max_tokens,
        anthropic_thinking_effort: input.anthropic_thinking_effort,
        thinking_budget_tokens: input.thinking_budget_tokens,
        created_at_ms: 0,
        updated_at_ms: 0,
    };
    let mut requested = ModelSpec::new("model-a");

    config.configure(&mut requested);

    assert_eq!(requested.context_window_tokens, Some(350_000));
}

fn axis() -> ModelVariantAxis {
    ModelVariantAxis {
        context_options: vec!["200k".into(), "1m".into()],
        effort_options: vec!["low".into(), "high".into()],
    }
}

fn parts(context: &str, effort: Option<&str>, fast: bool) -> ModelVariantParts {
    ModelVariantParts {
        context: context.into(),
        effort: effort.map(Into::into),
        fast,
    }
}

#[test]
fn variant_slug_round_trips_with_and_without_fast() {
    let axis = axis();
    let parts_1m = parts("1m", Some("low"), true);
    let slug = axis.bake_slug("hash", &parts_1m);
    assert_eq!(slug, "hash-1m-low-fast");
    assert_eq!(axis.parse_slug("hash", &slug), Some(parts_1m));
    assert_eq!(
        axis.parse_slug("hash", "hash-200k-high"),
        Some(parts("200k", Some("high"), false))
    );
    assert_eq!(axis.parse_slug("hash", "hash-1m"), None);
    assert_eq!(axis.parse_slug("hash", "hash-1m-gone"), None);
    assert_eq!(axis.parse_slug("hash", "other-1m-low"), None);
}

#[test]
fn variant_slug_omits_the_effort_segment_when_the_model_has_no_reasoning_axis() {
    let axis = ModelVariantAxis {
        context_options: vec!["200k".into(), "1m".into()],
        effort_options: Vec::new(),
    };
    let no_effort = parts("1m", None, false);
    assert_eq!(axis.bake_slug("hash", &no_effort), "hash-1m");
    assert_eq!(axis.parse_slug("hash", "hash-1m"), Some(no_effort));
    assert_eq!(
        axis.parse_slug("hash", "hash-1m-fast"),
        Some(parts("1m", None, true))
    );
    assert_eq!(axis.parse_slug("hash", "hash-1m-low"), None);
    assert_eq!(axis.default_parts(), Some(parts("200k", None, false)));
}

#[test]
fn variant_slug_parses_the_catalog_bracket_representation() {
    let axis = axis();
    assert_eq!(
        axis.parse_slug("hash", "hash[context=1m,reasoning=low,fast=true]"),
        Some(parts("1m", Some("low"), true))
    );
    assert_eq!(
        axis.parse_slug("hash", "hash[context=200k,reasoning=high,fast=false]"),
        Some(parts("200k", Some("high"), false))
    );
    assert_eq!(
        axis.parse_slug("hash", "hash[context=2m,reasoning=low,fast=false]"),
        None
    );
    assert_eq!(
        axis.parse_slug("hash", "hash[context=1m,reasoning=gone,fast=false]"),
        None
    );
    assert_eq!(axis.parse_slug("hash", "hash[reasoning=low]"), None);

    let no_effort = ModelVariantAxis {
        context_options: vec!["200k".into(), "1m".into()],
        effort_options: Vec::new(),
    };
    assert_eq!(
        no_effort.parse_slug("hash", "hash[context=1m,fast=false]"),
        Some(parts("1m", None, false))
    );
    assert_eq!(
        no_effort.parse_slug("hash", "hash[context=1m,reasoning=low,fast=false]"),
        None
    );
}

#[test]
fn default_variant_prefers_the_catalog_defaults() {
    let axis = ModelVariantAxis {
        context_options: vec!["272k".into(), "200k".into(), "1m".into()],
        effort_options: vec!["low".into(), "high".into()],
    };
    assert_eq!(axis.default_parts(), Some(parts("200k", Some("high"), false)));
    let without_preferred = ModelVariantAxis {
        context_options: vec!["272k".into(), "1m".into()],
        effort_options: vec!["low".into()],
    };
    assert_eq!(
        without_preferred.default_parts(),
        Some(parts("272k", Some("low"), false))
    );
}

#[test]
fn parameter_validation_normalizes_case_and_lists_valid_options() {
    let axis = axis();
    assert_eq!(axis.validate_effort("HIGH").unwrap(), "high");
    assert_eq!(axis.validate_context("200000").unwrap(), "200k");
    assert!(matches!(
        axis.validate_effort("gone"),
        Err(Error::Protocol(message)) if message.contains("low, high")
    ));
    assert!(matches!(
        axis.validate_context("2m"),
        Err(Error::Protocol(message)) if message.contains("200k, 1m")
    ));
    let no_effort = ModelVariantAxis {
        context_options: vec!["200k".into()],
        effort_options: Vec::new(),
    };
    assert!(no_effort.validate_effort("high").is_err());
}

#[test]
fn slug_of_default_parts_parses_back() {
    let axis = axis();
    let defaults = axis.default_parts().unwrap();
    let slug = axis.bake_slug("abc", &defaults);
    assert_eq!(slug, "abc-200k-high");
    assert_eq!(axis.parse_slug("abc", &slug), Some(defaults));
}
