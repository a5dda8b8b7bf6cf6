use selection_ai_assistant_lib::commands::config::{
    behavior_candidate, delete_provider_candidate, default_provider_candidate,
    output_target_candidate, provider_config_candidate, provider_update_candidate,
};
use selection_ai_assistant_lib::commands::panel::TargetPresetKind;
use selection_ai_assistant_lib::config::{
    AiProviderConfig, AiProviderKind, AppBehaviorConfig, AppConfig, CloseButtonBehavior,
    ProviderUpdate, ReplacementTargetLanguage, RuntimePreferences, SecretUpdate,
    SettingsConfigView,
};

fn provider(id: &str, base_url: &str, model: &str) -> AiProviderConfig {
    AiProviderConfig {
        id: id.to_string(),
        name: "Test Provider".to_string(),
        base_url: base_url.to_string(),
        model: model.to_string(),
        provider_kind: AiProviderKind::OpenAiCompatible,
        api_key: "test-api-key".to_string(),
        api_key_ref: format!("credential://{id}"),
        headers: Vec::new(),
    }
}

fn provider_update(
    original_provider_id: Option<&str>,
    id: &str,
    api_key: SecretUpdate,
) -> ProviderUpdate {
    ProviderUpdate {
        original_provider_id: original_provider_id.map(ToString::to_string),
        id: id.to_string(),
        name: "Updated Provider".to_string(),
        base_url: "https://example.com/v1".to_string(),
        model: "updated-model".to_string(),
        provider_kind: AiProviderKind::OpenAiCompatible,
        api_key,
        api_key_ref: format!("credential://{id}"),
    }
}

#[test]
fn settings_and_runtime_views_do_not_serialize_provider_secrets() {
    let mut saved_provider = provider("openai", "https://api.openai.com/v1", "gpt-test");
    saved_provider.api_key = "saved-api-key-secret".to_string();
    saved_provider.headers = vec![
        (
            "X-Trace-Context".to_string(),
            "trace-header-secret".to_string(),
        ),
        ("X-Tenant".to_string(), "tenant-header-secret".to_string()),
    ];
    let config = AppConfig {
        default_provider_id: Some("openai".to_string()),
        providers: vec![saved_provider],
        ..AppConfig::default()
    };

    let settings = SettingsConfigView::from(&config);
    let runtime = RuntimePreferences::from(&config);
    let settings_text = format!("{settings:?}");
    let runtime_text = format!("{runtime:?}");

    assert!(settings.providers[0].api_key_configured);
    assert!(settings.providers[0].custom_headers_configured);
    for shown in [&settings_text, &runtime_text] {
        assert!(!shown.contains("saved-api-key-secret"));
        assert!(!shown.contains("trace-header-secret"));
        assert!(!shown.contains("tenant-header-secret"));
        assert!(!shown.contains("api_key:"));
        assert!(!shown.contains("headers:"));
    }
}

#[test]
fn provider_update_resolves_secret_keep_replace_and_clear() {
    let mut saved_provider = provider("openai", "https://api.openai.com/v1", "gpt-test");
    saved_provider.api_key = "saved-api-key".to_string();
    let config = AppConfig {
        providers: vec![saved_provider],
        ..AppConfig::default()
    };

    let kept = provider_update(Some("openai"), "openai", SecretUpdate::Keep).resolve(&config);
    let replaced = provider_update(
        Some("openai"),
        "openai",
        SecretUpdate::Replace {
            value: "replacement-api-key".to_string(),
        },
    )
    .resolve(&config);
    let cleared = provider_update(Some("openai"), "openai", SecretUpdate::Clear).resolve(&config);

    assert_eq!(kept.api_key, "saved-api-key");
    assert_eq!(replaced.api_key, "replacement-api-key");
    assert_eq!(cleared.api_key, "");
}

#[test]
fn provider_update_preserves_existing_custom_headers() {
    let mut saved_provider = provider("openai", "https://api.openai.com/v1", "gpt-test");
    saved_provider.headers = vec![
        (
            "X-Trace-Context".to_string(),
            "trace-header-value".to_string(),
        ),
        ("X-Tenant".to_string(), "tenant-header-value".to_string()),
    ];
    let expected_headers = saved_provider.headers.clone();
    let config = AppConfig {
        providers: vec![saved_provider],
        ..AppConfig::default()
    };

    let resolved = provider_update(
        Some("openai"),
        "openai",
        SecretUpdate::Replace {
            value: "new-api-key".to_string(),
        },
    )
    .resolve(&config);

    assert_eq!(resolved.headers, expected_headers);
}

#[test]
fn save_provider_update_uses_original_provider_id_when_renaming() {
    let mut saved_provider = provider("old-id", "https://old.example/v1", "old-model");
    saved_provider.api_key = "saved-api-key".to_string();
    saved_provider.headers = vec![(
        "X-Trace-Context".to_string(),
        "saved-header-value".to_string(),
    )];
    let state = AppConfig {
        default_provider_id: Some("old-id".to_string()),
        providers: vec![saved_provider],
        ..AppConfig::default()
    };

    let config = provider_update_candidate(
        state,
        &provider_update(Some("old-id"), "new-id", SecretUpdate::Keep),
    )
    .expect("renamed provider should save");

    assert_eq!(config.providers.len(), 1);
    assert_eq!(config.providers[0].id, "new-id");
    assert_eq!(config.providers[0].api_key, "saved-api-key");
    assert_eq!(
        config.providers[0].headers,
        vec![(
            "X-Trace-Context".to_string(),
            "saved-header-value".to_string()
        )]
    );
    assert_eq!(config.default_provider_id.as_deref(), Some("new-id"));
}

#[test]
fn save_app_behavior_config_updates_startup_and_close_preferences() {
    let config = behavior_candidate(
        AppConfig::default(),
        &AppBehaviorConfig {
            hotkey: "Ctrl+Alt+T".to_string(),
            launch_at_startup: true,
            start_minimized_to_tray: true,
            close_button_behavior: CloseButtonBehavior::ExitApp,
            replacement_target_language: ReplacementTargetLanguage::Korean,
            replacement_custom_target: "韩语敬语".to_string(),
            translation_target_language: ReplacementTargetLanguage::MorseCode,
            translation_custom_target: "甲骨文风格".to_string(),
        },
    );

    assert_eq!(config.hotkey, "Ctrl+Alt+T");
    assert!(config.launch_at_startup);
    assert!(config.start_minimized_to_tray);
    assert_eq!(config.close_button_behavior, CloseButtonBehavior::ExitApp);
    assert_eq!(
        config.replacement_target_language,
        ReplacementTargetLanguage::Korean
    );
    assert_eq!(config.replacement_custom_target, "韩语敬语");
    assert_eq!(
        config.translation_target_language,
        ReplacementTargetLanguage::MorseCode
    );
    assert_eq!(config.translation_custom_target, "甲骨文风格");
}

#[test]
fn save_provider_config_adds_provider_and_sets_default() {
    let config = provider_config_candidate(
        AppConfig::default(),
        provider("openai", "https://api.openai.com/v1", "gpt-test"),
    )
    .expect("provider should save");

    assert_eq!(config.providers.len(), 1);
    assert_eq!(config.providers[0].id, "openai");
    assert_eq!(config.default_provider_id.as_deref(), Some("openai"));
}

#[test]
fn save_provider_config_updates_existing_provider() {
    let first = provider_config_candidate(
        AppConfig::default(),
        provider("openai", "https://api.openai.com/v1", "gpt-test"),
    )
    .expect("provider should save");

    let config = provider_config_candidate(
        first,
        provider("openai", "https://example.com/v1", "gpt-next"),
    )
    .expect("provider should update");

    assert_eq!(config.providers.len(), 1);
    assert_eq!(config.providers[0].base_url, "https://example.com/v1");
    assert_eq!(config.providers[0].model, "gpt-next");
}

#[test]
fn save_provider_config_updates_default_provider_to_saved_provider() {
    let first = provider_config_candidate(
        AppConfig::default(),
        provider("openai", "https://api.openai.com/v1", "gpt-test"),
    )
    .expect("first provider should save");

    let config = provider_config_candidate(
        first,
        provider("openrouter", "https://openrouter.ai/api/v1", "gpt-next"),
    )
    .expect("second provider should save");

    assert_eq!(config.default_provider_id.as_deref(), Some("openrouter"));
}

#[test]
fn save_provider_config_rejects_missing_required_fields() {
    let err = provider_config_candidate(
        AppConfig::default(),
        provider("", "https://api.openai.com/v1", "gpt-test"),
    )
    .expect_err("missing id should fail");
    assert_eq!(err.code, "provider_id_required");

    let err = provider_config_candidate(AppConfig::default(), provider("openai", "", "gpt-test"))
        .expect_err("missing base URL should fail");
    assert_eq!(err.code, "provider_config_incomplete");
}

#[test]
fn save_provider_config_allows_empty_model_for_model_loading_flow() {
    let config = provider_config_candidate(
        AppConfig::default(),
        provider("openai", "https://api.openai.com/v1", ""),
    )
    .expect("provider without model should save");

    assert_eq!(config.providers[0].model, "");
}

#[test]
fn provider_update_refuses_an_id_another_provider_has() {
    let config = AppConfig {
        default_provider_id: Some("a".to_string()),
        providers: vec![
            provider("a", "https://a.example/v1", "m"),
            provider("b", "https://b.example/v1", "m"),
        ],
        ..AppConfig::default()
    };

    let err = provider_update_candidate(config, &provider_update(Some("a"), "b", SecretUpdate::Keep))
        .expect_err("id conflict");
    assert_eq!(err.code, "provider_id_conflict");
    assert_eq!(err.message, "Provider with id 'b' already exists.");
}

#[test]
fn deleting_the_default_provider_falls_back_to_the_first_left() {
    let config = AppConfig {
        default_provider_id: Some("b".to_string()),
        providers: vec![
            provider("a", "https://a.example/v1", "m"),
            provider("b", "https://b.example/v1", "m"),
            provider("c", "https://c.example/v1", "m"),
        ],
        ..AppConfig::default()
    };

    let config = delete_provider_candidate(config, "b").expect("delete");
    assert_eq!(
        config.providers.iter().map(|p| p.id.as_str()).collect::<Vec<_>>(),
        vec!["a", "c"]
    );
    assert_eq!(config.default_provider_id.as_deref(), Some("a"));

    let config = delete_provider_candidate(config, "a").expect("delete");
    let config = delete_provider_candidate(config, "c").expect("delete");
    assert!(config.providers.is_empty());
    assert_eq!(config.default_provider_id, None);

    let err = delete_provider_candidate(config, "missing").expect_err("not found");
    assert_eq!(err.code, "provider_not_found");
    assert_eq!(err.message, "Provider with id 'missing' not found.");
}

#[test]
fn setting_the_default_provider_requires_an_existing_one() {
    let config = AppConfig {
        providers: vec![provider("a", "https://a.example/v1", "m")],
        ..AppConfig::default()
    };
    let err = default_provider_candidate(config.clone(), "z").expect_err("missing");
    assert_eq!(err.code, "provider_not_found");
    let config = default_provider_candidate(config, "a").expect("exists");
    assert_eq!(config.default_provider_id.as_deref(), Some("a"));
}

#[test]
fn custom_output_target_must_not_be_blank() {
    let err = output_target_candidate(
        AppConfig::default(),
        TargetPresetKind::Replacement,
        ReplacementTargetLanguage::Custom,
        "   ",
    )
    .expect_err("blank custom target");
    assert_eq!(err.code, "output_target_required");

    let config = output_target_candidate(
        AppConfig::default(),
        TargetPresetKind::Translation,
        ReplacementTargetLanguage::Custom,
        "  日文  ",
    )
    .expect("custom target");
    assert_eq!(config.translation_target_language, ReplacementTargetLanguage::Custom);
    assert_eq!(config.translation_custom_target, "日文");
    assert_eq!(config.replacement_target_language, ReplacementTargetLanguage::Auto);
}
