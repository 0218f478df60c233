use codex_remote::json::Json;
use codex_remote::models::{
    compatible_model_info, compatible_models, is_kimi_provider, kimi_codex_behavior_profile,
    models_refresh_timeout, CompatibleModelInfo, CompatibleReasoningEfforts, InputModality,
    ModelBehavior, ModelInfo, ModelProviderInfo, ModelVisibility, ReasoningEffort, WireApi,
    COMPATIBLE_MODELS_REFRESH_TIMEOUT_SECONDS, MODELS_REFRESH_TIMEOUT_SECONDS,
};

fn behavior(tool_mode: Option<&str>) -> ModelBehavior {
    ModelBehavior {
        model_messages: tool_mode.map(Json::string),
        include_skills_usage_instructions: tool_mode.is_some(),
        include_plugin_usage_instructions: false,
        include_apps_usage_instructions: tool_mode.is_some(),
        tool_mode: tool_mode.map(str::to_string),
        multi_agent_version: tool_mode.map(|_| "v2".to_string()),
        multi_agent_reasoning_effort: None,
    }
}

fn base(slug: &str) -> ModelInfo {
    ModelInfo {
        slug: slug.to_string(),
        behavior: behavior(None),
        visibility: ModelVisibility::Hide,
        priority: 99,
        context_window: None,
        max_context_window: None,
        auto_review_model_override: None,
        input_modalities: vec![],
        default_reasoning_level: Some(ReasoningEffort::Low),
        supported_reasoning_levels: vec![],
        supports_reasoning_summary_parameter: true,
        used_fallback_model_metadata: false,
        apply_patch_tool_type: None,
    }
}

fn openai() -> ModelProviderInfo {
    ModelProviderInfo {
        name: "OpenAI".to_string(),
        base_url: None,
        wire_api: WireApi::Responses,
    }
}

#[test]
fn compatible_model_metadata_preserves_kimi_capabilities() {
    let model = compatible_model_info(
        CompatibleModelInfo {
            id: "kimi-k3".to_string(),
            context_length: Some(1_048_576),
            supports_image_in: true,
            supports_reasoning: true,
            reasoning_efforts: Some(CompatibleReasoningEfforts {
                support: true,
                valid_efforts: vec![
                    ReasoningEffort::Low,
                    ReasoningEffort::High,
                    ReasoningEffort::Max,
                ],
                default_effort: Some(ReasoningEffort::Max),
            }),
        },
        base("kimi-k3"),
        0,
        None,
    );

    assert_eq!(model.slug, "kimi-k3");
    assert_eq!(model.visibility, ModelVisibility::List);
    assert_eq!(model.context_window, Some(1_048_576));
    assert_eq!(model.default_reasoning_level, Some(ReasoningEffort::Max));
    assert_eq!(model.supported_reasoning_levels.len(), 3);
    assert_eq!(model.supported_reasoning_levels[2].description, "max");
    assert_eq!(
        model.input_modalities,
        vec![InputModality::Text, InputModality::Image]
    );
    assert!(!model.used_fallback_model_metadata);
}

#[test]
fn kimi_models_inherit_native_codex_behavior_without_tool_metadata() {
    let provider_info = ModelProviderInfo {
        name: "Kimi".to_string(),
        base_url: Some("https://api.moonshot.cn/v1".to_string()),
        wire_api: WireApi::Chat,
    };
    let known = ModelInfo {
        behavior: behavior(Some("code")),
        apply_patch_tool_type: Some("freeform".to_string()),
        ..base("gpt-5.5")
    };
    let behavior_profile =
        kimi_codex_behavior_profile(&provider_info, Some(vec![base("gpt-5"), known]))
            .expect("Kimi behavior profile");
    let model = compatible_model_info(
        CompatibleModelInfo {
            id: "kimi-k3".to_string(),
            context_length: Some(1_048_576),
            supports_image_in: false,
            supports_reasoning: true,
            reasoning_efforts: None,
        },
        base("kimi-k3"),
        0,
        Some(&behavior_profile),
    );

    assert_eq!(
        model.behavior.model_messages,
        behavior_profile.behavior.model_messages
    );
    assert_eq!(model.apply_patch_tool_type, None);
    assert_eq!(model.context_window, Some(1_048_576));
    assert_eq!(
        model.behavior.tool_mode,
        behavior_profile.behavior.tool_mode
    );
    assert_eq!(
        model.behavior.multi_agent_version,
        behavior_profile.behavior.multi_agent_version
    );
}

#[test]
fn compatible_model_refresh_allows_provider_startup_latency() {
    let mut provider_info = openai();
    assert_eq!(
        models_refresh_timeout(&provider_info),
        MODELS_REFRESH_TIMEOUT_SECONDS
    );

    provider_info.wire_api = WireApi::Chat;
    assert_eq!(
        models_refresh_timeout(&provider_info),
        COMPATIBLE_MODELS_REFRESH_TIMEOUT_SECONDS
    );
    assert_eq!(models_refresh_timeout(&provider_info), 20);
}

#[test]
fn kimi_reasoning_models_without_effort_metadata_default_to_thinking() {
    let model = compatible_model_info(
        CompatibleModelInfo {
            id: "kimi-k2.7-code".to_string(),
            context_length: Some(262_144),
            supports_image_in: false,
            supports_reasoning: true,
            reasoning_efforts: None,
        },
        base("kimi-k2.7-code"),
        0,
        None,
    );

    assert_eq!(model.default_reasoning_level, Some(ReasoningEffort::High));
    assert_eq!(
        model
            .supported_reasoning_levels
            .into_iter()
            .map(|preset| preset.effort)
            .collect::<Vec<_>>(),
        vec![
            ReasoningEffort::Low,
            ReasoningEffort::High,
            ReasoningEffort::Max
        ]
    );
    assert!(model.supports_reasoning_summary_parameter);
}

#[test]
fn models_without_reasoning_have_no_efforts() {
    let model = compatible_model_info(
        CompatibleModelInfo {
            id: "plain".to_string(),
            context_length: None,
            supports_image_in: false,
            supports_reasoning: false,
            reasoning_efforts: Some(CompatibleReasoningEfforts {
                support: true,
                valid_efforts: vec![ReasoningEffort::Other("odd".to_string())],
                default_effort: None,
            }),
        },
        base("plain"),
        usize::MAX,
        None,
    );
    assert_eq!(model.default_reasoning_level, None);
    assert_eq!(model.supported_reasoning_levels, vec![]);
    assert_eq!(model.priority, i32::MAX);
    assert_eq!(model.auto_review_model_override.as_deref(), Some("plain"));
    assert_eq!(model.input_modalities, vec![InputModality::Text]);
}

#[test]
fn kimi_is_known_by_name_or_address() {
    let mut provider = openai();
    assert!(!is_kimi_provider(&provider));
    assert!(kimi_codex_behavior_profile(&provider, Some(vec![base("gpt-5.5")])).is_none());
    provider.base_url = Some("https://API.Moonshot.AI/v1".to_string());
    assert!(is_kimi_provider(&provider));
    assert!(kimi_codex_behavior_profile(&provider, None).is_none());
    assert!(kimi_codex_behavior_profile(&provider, Some(vec![base("gpt-5")])).is_none());
    provider.base_url = None;
    provider.name = "KIMI".to_string();
    assert!(is_kimi_provider(&provider));
}

#[test]
fn listed_models_keep_their_order() {
    let told = |id: &str| {
        (
            CompatibleModelInfo {
                id: id.to_string(),
                context_length: None,
                supports_image_in: false,
                supports_reasoning: false,
                reasoning_efforts: None,
            },
            base(id),
        )
    };
    let infos = compatible_models(vec![told("a"), told("b")], None);
    assert_eq!(
        infos
            .iter()
            .map(|info| (info.slug.as_str(), info.priority))
            .collect::<Vec<_>>(),
        vec![("a", 0), ("b", 1)]
    );
}
