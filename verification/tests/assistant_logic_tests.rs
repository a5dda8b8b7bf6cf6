use selection_ai_assistant_lib::ai::action_classifier::AiAction;
use selection_ai_assistant_lib::ai::openai_compatible::AiClientError;
use selection_ai_assistant_lib::app_lifecycle::{is_autostart_launch, should_hide_to_background_on_close};
use selection_ai_assistant_lib::commands::access::require_label;
use selection_ai_assistant_lib::commands::ai::{
    connection_after_chat_probe, connection_after_model_list, connection_probe_messages,
    default_provider_with_api_key, prepare_ai_action, prepare_follow_up, provider_api_key,
    stream_error_payload, ConnectionStep, RunAiActionRequest, RunAiFollowUpRequest,
    StreamOutcome,
};
use selection_ai_assistant_lib::commands::panel::source_text_for_window;
use selection_ai_assistant_lib::commands::screenshot::{
    build_screenshot_translate_prompt, require_vision_provider, screenshot_failure_delta,
};
use selection_ai_assistant_lib::config::{AiProviderConfig, AiProviderKind, AppConfig};
use selection_ai_assistant_lib::platform::screenshot::{bgra_pixels_to_rgba, png_data_url_from_bgra};
use selection_ai_assistant_lib::security::secrets::{MemorySecretStore, SecretError, SecretStore};
use selection_ai_assistant_lib::types::request_id_or_new;

fn provider(id: &str, api_key: &str) -> AiProviderConfig {
    AiProviderConfig {
        id: id.to_string(),
        name: "Test".to_string(),
        base_url: "https://example.com/v1".to_string(),
        model: "gpt-test".to_string(),
        provider_kind: AiProviderKind::OpenAiCompatible,
        api_key: api_key.to_string(),
        api_key_ref: "credential://test".to_string(),
        headers: Vec::new(),
    }
}

fn config_with(provider: AiProviderConfig) -> AppConfig {
    AppConfig {
        default_provider_id: Some(provider.id.clone()),
        providers: vec![provider],
        ..AppConfig::default()
    }
}

#[test]
fn api_key_comes_from_settings_before_the_environment() {
    assert_eq!(provider_api_key(&provider("p", "  saved  "), Some("env")).unwrap(), "saved");
    assert_eq!(provider_api_key(&provider("p", "  "), Some("env-key")).unwrap(), "env-key");
    let err = provider_api_key(&provider("p", ""), None).unwrap_err();
    assert_eq!(err.code, "api_key_missing");
    assert_eq!(
        err.message,
        "请在设置中填写 API 密钥，或配置 SELECTION_AI_API_KEY 环境变量。"
    );
}

#[test]
fn default_provider_must_be_set_and_exist() {
    let err = default_provider_with_api_key(&AppConfig::default(), None, "需要默认服务商").unwrap_err();
    assert_eq!(err.code, "provider_missing");
    assert_eq!(err.message, "需要默认服务商");
    let mut config = config_with(provider("p", "k"));
    config.default_provider_id = Some("missing".to_string());
    let err = default_provider_with_api_key(&config, None, "x").unwrap_err();
    assert_eq!(err.message, "未找到默认服务商配置。");
    let (found, key) = default_provider_with_api_key(&config_with(provider("p", "k")), None, "x").unwrap();
    assert_eq!(found.id, "p");
    assert_eq!(key, "k");
}

#[test]
fn ai_action_requests_are_checked_in_order() {
    let config = config_with(provider("p", "k"));
    let request = |text: &str, id: &str| RunAiActionRequest {
        request_id: id.to_string(),
        action: AiAction::TranslateOnly,
        text: text.to_string(),
        target_language: Some("  韩文 ".to_string()),
    };
    assert_eq!(
        prepare_ai_action(&config, None, &request("  ", "")).err().unwrap().code,
        "selection_text_required"
    );
    assert_eq!(
        prepare_ai_action(&config, None, &request("hi", " ")).err().unwrap().code,
        "request_id_required"
    );
    let prepared = prepare_ai_action(&config, None, &request("  你好  ", " r1 ")).unwrap();
    assert_eq!(prepared.request_id, "r1");
    assert_eq!(prepared.api_key, "k");
    assert!(prepared.messages[1].content.contains("翻译成韩文"));
    assert!(prepared.messages[1].content.ends_with("内容：\n你好"));
}

#[test]
fn follow_up_requests_are_checked_in_order() {
    let config = config_with(provider("p", "k"));
    let request = |id: &str, original: &str, previous: &str, question: &str| RunAiFollowUpRequest {
        request_id: id.to_string(),
        original_text: original.to_string(),
        previous_answer: previous.to_string(),
        question: question.to_string(),
    };
    let code = |r: RunAiFollowUpRequest| prepare_follow_up(&config, None, &r).err().unwrap().code;
    assert_eq!(code(request(" ", "a", "b", "c")), "request_id_required");
    assert_eq!(code(request("r", " ", "b", "c")), "selection_text_required");
    assert_eq!(code(request("r", "a", " ", "c")), "previous_answer_required");
    assert_eq!(code(request("r", "a", "b", " ")), "follow_up_question_required");
    let prepared = prepare_follow_up(&config, None, &request("r", " a ", " b ", " c ")).unwrap();
    assert!(prepared.messages[1].content.ends_with("用户追问：\nc"));
}

#[test]
fn stream_end_is_reported_to_the_panel() {
    assert!(stream_error_payload("r1", &StreamOutcome::Completed).is_none());
    let failed = stream_error_payload("r1", &StreamOutcome::Failed(AiClientError::MissingApiKey)).unwrap();
    assert_eq!(failed.code, "provider_stream_failed");
    assert_eq!(failed.message, "provider API key is empty");
    let timed_out = stream_error_payload("r1", &StreamOutcome::TimedOut).unwrap();
    assert_eq!(timed_out.code, "provider_stream_timeout");
    assert_eq!(timed_out.request_id, "r1");
}

#[test]
fn connection_test_falls_back_to_a_chat_probe() {
    match connection_after_model_list("m", Ok(3)) {
        ConnectionStep::Done(Ok(response)) => {
            assert!(response.success);
            assert_eq!(response.model_count, 3);
            assert!(response.model_list_available);
        }
        _ => panic!("expected success"),
    }
    match connection_after_model_list(" ", Err(AiClientError::Request("x".to_string()))) {
        ConnectionStep::Done(Err(e)) => {
            assert_eq!(e.code, "provider_model_list_failed");
            assert_eq!(e.message, "request failed: x");
        }
        _ => panic!("expected failure"),
    }
    assert!(matches!(
        connection_after_model_list("m", Err(AiClientError::MissingBaseUrl)),
        ConnectionStep::ProbeChat(AiClientError::MissingBaseUrl)
    ));
    let ok = connection_after_chat_probe(Ok(())).unwrap();
    assert!(ok.success && ok.model_count == 0 && !ok.model_list_available);
    let err = connection_after_chat_probe(Err(AiClientError::MissingModel)).unwrap_err();
    assert_eq!(err.code, "provider_connection_failed");
    assert_eq!(err.message, "模型列表接口不可用，聊天接口测试也失败：provider model is empty");
    assert_eq!(connection_probe_messages()[0].content, "请只回复 OK，用于连接测试。");
}

#[test]
fn screenshot_prompt_without_target_translates_into_chinese() {
    let prompt = build_screenshot_translate_prompt(None);
    assert!(prompt.contains("识别截图中的可见文字"));
    assert!(prompt.contains("翻译成自然中文"));
    assert_eq!(build_screenshot_translate_prompt(Some("   ")), prompt);
    let pictograph = build_screenshot_translate_prompt(Some("Pictograph"));
    assert!(pictograph.contains("近似转写"));
    assert!(require_vision_provider(AiProviderKind::OpenAiCompatible).is_ok());
    assert_eq!(
        require_vision_provider(AiProviderKind::Gemini).unwrap_err().code,
        "provider_vision_unsupported"
    );
    assert_eq!(screenshot_failure_delta("x"), "\n\n截图翻译失败：x");
}

#[test]
fn request_ids_are_kept_or_generated() {
    assert_eq!(request_id_or_new("  abc "), "abc");
    let generated = request_id_or_new("   ");
    assert_eq!(generated.len(), 36);
    assert_ne!(generated, request_id_or_new(""));
    for (i, c) in generated.chars().enumerate() {
        if [8, 13, 18, 23].contains(&i) {
            assert_eq!(c, '-');
        } else {
            assert!(c.is_ascii_digit() || ('a'..='f').contains(&c));
        }
    }
    assert_eq!(generated.chars().nth(14), Some('4'));
    assert!(matches!(generated.chars().nth(19), Some('8' | '9' | 'a' | 'b')));
}

#[test]
fn memory_store_reads_back_what_was_written() {
    let mut store = MemorySecretStore::new();
    assert!(matches!(store.get_secret("k"), Err(SecretError::NotFound(ref k)) if k == "k"));
    store.set_secret("k", "v1").unwrap();
    store.set_secret("other", "x").unwrap();
    store.set_secret("k", "v2").unwrap();
    assert_eq!(store.get_secret("k").unwrap(), "v2");
    assert_eq!(store.get_secret("other").unwrap(), "x");
    store.delete_secret("k").unwrap();
    assert!(store.get_secret("k").is_err());
    assert_eq!(store.get_secret("other").unwrap(), "x");
    assert_eq!(
        SecretError::NotFound("k".to_string()).message(),
        "secret not found: k"
    );
}

#[test]
fn command_windows_are_checked_by_label() {
    assert!(require_label("main", &["main"]).is_ok());
    let err = require_label("ai-panel", &["main", "floating-button"]).unwrap_err();
    assert_eq!(err.code, "command_window_unauthorized");
    assert_eq!(err.message, "窗口 `ai-panel` 无权执行此操作。");
}

#[test]
fn autostart_and_background_close_are_recognised() {
    assert!(is_autostart_launch(&vec!["app".to_string(), "--autostart".to_string()]));
    assert!(!is_autostart_launch(&vec!["--autostart=1".to_string()]));
    assert!(should_hide_to_background_on_close("main"));
    assert!(!should_hide_to_background_on_close("ai-panel"));
}

#[test]
fn source_text_window_needs_text() {
    assert_eq!(source_text_for_window("  hi ").unwrap().text, "hi");
    assert_eq!(source_text_for_window("  ").unwrap_err().code, "source_text_required");
}

#[test]
fn capture_pixels_become_an_opaque_png_data_url() {
    assert_eq!(
        bgra_pixels_to_rgba(&[1, 2, 3, 0, 10, 20, 30, 40, 9]),
        vec![3, 2, 1, 255, 30, 20, 10, 255]
    );
    let url = png_data_url_from_bgra(&[0, 0, 255, 0], 1, 1).unwrap();
    assert!(url.starts_with("data:image/png;base64,iVBORw0KGgo"));
    let err = png_data_url_from_bgra(&[0, 0, 255, 0], 2, 2).unwrap_err();
    assert_eq!(err.code, "screenshot_encode_failed");
}

#[test]
fn a_capture_too_large_for_memory_is_refused_before_encoding() {
    let err = png_data_url_from_bgra(&[0, 0, 255, 0], u32::MAX, u32::MAX).unwrap_err();
    assert_eq!(err.code, "screenshot_encode_failed");
    assert_eq!(err.message, "截图区域过大，无法编码。");
}
