use selection_ai_assistant_lib::ai::action_classifier::AiAction;
use selection_ai_assistant_lib::ai::openai_compatible::{AiClientError, SseParseResult};
use selection_ai_assistant_lib::ai::stream::{reads_rest_at_end, stream_chunk_step, StreamStep};
use selection_ai_assistant_lib::commands::ai::{
    prepare_ai_action, prepare_follow_up, RunAiActionRequest, RunAiFollowUpRequest,
};
use selection_ai_assistant_lib::config::{AiProviderConfig, AiProviderKind, AppConfig};
use selection_ai_assistant_lib::platform::pixels::capture_size_fits;

fn provider(kind: AiProviderKind, api_key: &str) -> AiProviderConfig {
    AiProviderConfig {
        id: "p".to_string(),
        name: "P".to_string(),
        base_url: "https://example.test".to_string(),
        model: "m".to_string(),
        provider_kind: kind,
        api_key: api_key.to_string(),
        api_key_ref: String::new(),
        headers: vec![("X-Trace".to_string(), "trace-secret".to_string())],
    }
}

fn parsed(deltas: &[&str], done: bool) -> Result<SseParseResult, AiClientError> {
    Ok(SseParseResult { deltas: deltas.iter().map(|d| d.to_string()).collect(), done })
}

#[test]
fn chunks_hand_on_their_deltas_until_the_end_marker() {
    let p = provider(AiProviderKind::OpenAiCompatible, "k");
    assert_eq!(
        stream_chunk_step(AiProviderKind::OpenAiCompatible, parsed(&["a", "b"], false), &p, "k"),
        StreamStep::Continue(vec!["a".to_string(), "b".to_string()])
    );
    assert_eq!(
        stream_chunk_step(AiProviderKind::Anthropic, parsed(&["c"], true), &p, "k"),
        StreamStep::Finish(vec!["c".to_string()])
    );
}

#[test]
fn gemini_streams_run_to_the_end_of_the_body() {
    let p = provider(AiProviderKind::Gemini, "k");
    assert_eq!(
        stream_chunk_step(AiProviderKind::Gemini, parsed(&["x"], true), &p, "k"),
        StreamStep::Continue(vec!["x".to_string()])
    );
}

#[test]
fn only_anthropic_stream_errors_are_redacted() {
    let p = provider(AiProviderKind::Anthropic, "sk-secret");
    let err = || Err(AiClientError::Request("bad sk-secret and trace-secret".to_string()));
    assert_eq!(
        stream_chunk_step(AiProviderKind::Anthropic, err(), &p, "sk-secret"),
        StreamStep::Fail(AiClientError::Request("bad [redacted] and [redacted]".to_string()))
    );
    assert_eq!(
        stream_chunk_step(AiProviderKind::OpenAiCompatible, err(), &p, "sk-secret"),
        StreamStep::Fail(AiClientError::Request("bad sk-secret and trace-secret".to_string()))
    );
    assert_eq!(
        stream_chunk_step(AiProviderKind::Anthropic, Err(AiClientError::MissingModel), &p, "k"),
        StreamStep::Fail(AiClientError::MissingModel)
    );
}

#[test]
fn only_openai_compatible_streams_read_the_held_back_line() {
    assert!(reads_rest_at_end(AiProviderKind::OpenAiCompatible, 3));
    assert!(!reads_rest_at_end(AiProviderKind::OpenAiCompatible, 0));
    assert!(!reads_rest_at_end(AiProviderKind::Anthropic, 3));
    assert!(!reads_rest_at_end(AiProviderKind::Gemini, 3));
}

#[test]
fn capture_sizes_are_bounded() {
    assert!(capture_size_fits(1, 1));
    assert!(capture_size_fits(6000, 4000));
    assert!(!capture_size_fits(0, 10));
    assert!(!capture_size_fits(10, -1));
    assert!(!capture_size_fits(6001, 10));
    assert!(!capture_size_fits(10, 4001));
}

#[test]
fn requests_without_a_usable_provider_are_refused_with_its_reason() {
    let request = RunAiActionRequest {
        request_id: "r".to_string(),
        action: AiAction::Explain,
        text: "hello".to_string(),
        target_language: None,
    };
    let err = prepare_ai_action(&AppConfig::default(), None, &request).err().unwrap();
    assert_eq!(err.code, "provider_missing");
    assert_eq!(err.message, "运行 AI 动作前需要先配置默认服务商。");

    let config = AppConfig {
        default_provider_id: Some("p".to_string()),
        providers: vec![provider(AiProviderKind::OpenAiCompatible, " ")],
        ..AppConfig::default()
    };
    let err = prepare_ai_action(&config, None, &request).err().unwrap();
    assert_eq!(err.code, "api_key_missing");

    let follow_up = RunAiFollowUpRequest {
        request_id: "r".to_string(),
        original_text: "a".to_string(),
        previous_answer: "b".to_string(),
        question: "c".to_string(),
    };
    let mut missing = config.clone();
    missing.default_provider_id = Some("gone".to_string());
    let err = prepare_follow_up(&missing, None, &follow_up).err().unwrap();
    assert_eq!(err.code, "provider_missing");
    assert_eq!(err.message, "未找到默认服务商配置。");
}
