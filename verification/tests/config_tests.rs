use selection_ai_assistant_lib::config::{AppConfig, CloseButtonBehavior, ReplacementTargetLanguage};

#[test]
fn default_config_contains_privacy_defaults() {
    let config = AppConfig::default();

    assert_eq!(config.hover_delay_ms, 1_000);
    assert_eq!(config.candidate_timeout_ms, 4_000);
    assert!(config.clipboard_fallback_enabled);
    assert!(config.show_clipboard_privacy_warning_on_first_use);
    assert!(config.disable_in_elevated_windows);
    assert!(config.manual_hotkey_always_enabled);
    assert!(!config.launch_at_startup);
    assert!(!config.start_minimized_to_tray);
    assert_eq!(config.close_button_behavior, CloseButtonBehavior::Ask);
    assert_eq!(
        config.replacement_target_language,
        ReplacementTargetLanguage::Auto
    );
    assert_eq!(config.replacement_custom_target, "");
    assert_eq!(
        config.translation_target_language,
        ReplacementTargetLanguage::Auto
    );
    assert_eq!(config.translation_custom_target, "");
    assert!(config.is_disabled_process("Bitwarden.exe"));
    assert!(config.is_disabled_process("bitwarden.exe"));
}

#[test]
fn default_hover_delay_is_one_second() {
    assert_eq!(AppConfig::default().hover_delay_ms, 1_000);
}
