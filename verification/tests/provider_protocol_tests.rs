use selection_ai_assistant_lib::ai::anthropic::{
    build_messages_request, extract_anthropic_delta_content,
    extract_anthropic_sse_deltas_from_bytes, AnthropicClient,
};
use selection_ai_assistant_lib::ai::gemini::{
    build_generate_content_request, extract_gemini_delta_content,
    extract_gemini_sse_deltas_from_bytes, normalized_model, GeminiClient,
};
use selection_ai_assistant_lib::ai::openai_compatible::{
    extract_sse_deltas_from_bytes, AiClientError, ChatMessage, OpenAiCompatibleClient,
};
use selection_ai_assistant_lib::ai::response::{
    error_reply, models_reply, provider_error_detail, provider_error_message, redaction_secrets,
    sanitize_stream_error,
};
use selection_ai_assistant_lib::config::{AiProviderConfig, AiProviderKind};

fn provider(kind: AiProviderKind) -> AiProviderConfig {
    AiProviderConfig {
        id: "test".to_string(),
        name: "Test".to_string(),
        base_url: " https://example.com/v1// ".to_string(),
        model: "gpt-test".to_string(),
        provider_kind: kind,
        api_key: "dummy-api-key".to_string(),
        api_key_ref: "credential://test".to_string(),
        headers: vec![
            ("X-Test".to_string(), "base-header-secret".to_string()),
            ("X-API-Key".to_string(), "header-secret".to_string()),
            ("X-Trace-Context".to_string(), "trace-secret".to_string()),
            ("X-Empty".to_string(), "   ".to_string()),
        ],
    }
}

#[test]
fn anthropic_stream_reads_text_deltas_until_message_stop() {
    let mut buffer = Vec::new();
    let body = b"data: {\"type\":\"content_block_delta\",\"delta\":{\"type\":\"text_delta\",\"text\":\"Answer OK\"}}\n\ndata: {\"type\":\"message_stop\"}\n\ndata: {\"type\":\"content_block_delta\",\"delta\":{\"type\":\"text_delta\",\"text\":\"late\"}}\n";
    let parsed = extract_anthropic_sse_deltas_from_bytes(&mut buffer, body).unwrap();
    assert_eq!(parsed.deltas, vec!["Answer OK".to_string()]);
    assert!(parsed.done);
    assert!(buffer.starts_with(b"\ndata: {\"type\":\"content_block_delta\""));
}

#[test]
fn anthropic_error_event_ends_the_stream_with_its_message() {
    let mut buffer = Vec::new();
    let body = b"event: error\ndata: {\"type\":\"error\",\"error\":{\"message\":\"rate   limit\\n reached\"}}\n\n";
    let err = extract_anthropic_sse_deltas_from_bytes(&mut buffer, body).unwrap_err();
    assert_eq!(
        err,
        AiClientError::Request("Anthropic stream error: rate limit reached".to_string())
    );
}

#[test]
fn anthropic_delta_needs_a_text_delta() {
    assert_eq!(
        extract_anthropic_delta_content(r#"{"type":"content_block_delta","delta":{"type":"input_json_delta","text":"x"}}"#),
        None
    );
    assert_eq!(extract_anthropic_delta_content("not json"), None);
}

#[test]
fn gemini_stream_joins_the_texts_of_the_parts() {
    let mut buffer = Vec::new();
    let body = b"data: {\"candidates\":[{\"content\":{\"parts\":[{\"text\":\"Gem\"},{\"inlineData\":1},{\"text\":\"ini\"}]}}]}\r\n\r\ndata: {\"candidates\":[]}\n";
    let parsed = extract_gemini_sse_deltas_from_bytes(&mut buffer, body).unwrap();
    assert_eq!(parsed.deltas, vec!["Gemini".to_string()]);
    assert!(!parsed.done);
    assert!(buffer.is_empty());
    assert_eq!(
        extract_gemini_delta_content(r#"{"candidates":[{"content":{"parts":[{"text":""}]}}]}"#),
        None
    );
}

#[test]
fn stream_keeps_an_incomplete_line_for_the_next_chunk() {
    let mut buffer = Vec::new();
    let first = extract_sse_deltas_from_bytes(&mut buffer, b"data: {\"choices\":[{\"delta\":{\"content\":\"a\"}}]}\ndata: {\"cho").unwrap();
    assert_eq!(first.deltas, vec!["a".to_string()]);
    assert_eq!(buffer, b"data: {\"cho".to_vec());
    let second = extract_sse_deltas_from_bytes(&mut buffer, b"ices\":[{\"delta\":{\"content\":\"b\"}}]}\ndata: [DONE]\n").unwrap();
    assert_eq!(second.deltas, vec!["b".to_string()]);
    assert!(second.done);
}

#[test]
fn invalid_utf8_line_is_a_request_error() {
    let mut buffer = Vec::new();
    let err = extract_sse_deltas_from_bytes(&mut buffer, b"data: \xff\xfe\n").unwrap_err();
    match err {
        AiClientError::Request(message) => assert!(message.starts_with("invalid UTF-8 in SSE line: ")),
        other => panic!("unexpected error {other:?}"),
    }
}

#[test]
fn provider_error_message_collapses_whitespace() {
    assert_eq!(
        provider_error_message(r#"{"error":{"message":"  invalid \n\t API   key "}}"#),
        Some("invalid API key".to_string())
    );
    assert_eq!(
        provider_error_message(r#"{"message":"top level"}"#),
        Some("top level".to_string())
    );
    assert_eq!(provider_error_message(r#"{"error":{"message":7}}"#), None);
    assert_eq!(provider_error_message("<html>"), None);
}

#[test]
fn redaction_secrets_are_the_trimmed_key_and_every_header_value() {
    let secrets = redaction_secrets(&provider(AiProviderKind::OpenAiCompatible), "  dummy-api-key ");
    assert_eq!(
        secrets,
        vec![
            "dummy-api-key".to_string(),
            "base-header-secret".to_string(),
            "header-secret".to_string(),
            "trace-secret".to_string(),
        ]
    );
}

#[test]
fn provider_error_detail_is_redacted_trimmed_and_cut() {
    let secrets = vec!["dummy-api-key".to_string()];
    assert_eq!(
        provider_error_detail(r#"{"error":{"message":"bad key dummy-api-key"}}"#, &secrets),
        Some("bad key [redacted]".to_string())
    );
    assert_eq!(provider_error_detail(r#"{"message":"   "}"#, &secrets), None);
    let long = format!(r#"{{"message":"{}"}}"#, "x".repeat(600));
    assert_eq!(provider_error_detail(&long, &secrets).unwrap().chars().count(), 500);
}

#[test]
fn openai_error_reply_redacts_key_and_every_header_value() {
    let body = r#"{"error":{"message":"invalid API key dummy-api-key base-header-secret header-secret trace-secret"}}"#;
    let err = error_reply(401, body, &provider(AiProviderKind::OpenAiCompatible), "dummy-api-key");
    let AiClientError::Request(message) = err else {
        panic!("expected a request error");
    };
    assert!(message.starts_with("HTTP 401"));
    assert!(message.contains("invalid API key"));
    assert!(message.contains("[redacted]"));
    for secret in ["dummy-api-key", "base-header-secret", "header-secret", "trace-secret"] {
        assert!(!message.contains(secret));
    }
}

#[test]
fn gemini_error_reply_keeps_status_and_redacts() {
    let body = r#"{"error":{"message":"invalid credentials dummy-api-key base-header-secret header-secret trace-secret"}}"#;
    let err = error_reply(401, body, &provider(AiProviderKind::Gemini), "dummy-api-key");
    let AiClientError::Request(message) = err else {
        panic!("expected a request error");
    };
    assert!(message.starts_with("HTTP 401"));
    assert!(message.contains("[redacted]"));
    assert!(!message.contains("trace-secret"));
    let plain = error_reply(503, "oops", &provider(AiProviderKind::Anthropic), "dummy-api-key");
    assert_eq!(
        plain,
        AiClientError::Request("HTTP 503 Service Unavailable".to_string())
    );
}

#[test]
fn sanitized_stream_errors_hold_no_secret() {
    let err = sanitize_stream_error(
        AiClientError::Request("rate limit dummy-api-key trace-secret".to_string()),
        &provider(AiProviderKind::Anthropic),
        "dummy-api-key",
    );
    assert_eq!(
        err,
        AiClientError::Request("rate limit [redacted] [redacted]".to_string())
    );
    assert_eq!(
        sanitize_stream_error(AiClientError::MissingModel, &provider(AiProviderKind::Anthropic), "k"),
        AiClientError::MissingModel
    );
}

#[test]
fn model_lists_are_read_by_protocol() {
    assert_eq!(
        OpenAiCompatibleClient::parse_model_ids(r#"{"data":[{"id":"gpt-test"},{"name":"x"},{"id":"gpt-next"}]}"#).unwrap(),
        vec!["gpt-test".to_string(), "gpt-next".to_string()]
    );
    assert_eq!(
        GeminiClient::parse_model_ids(r#"{"models":[{"name":"models/gemini-pro"},{"name":"other"}]}"#).unwrap(),
        vec!["gemini-pro".to_string(), "other".to_string()]
    );
    assert_eq!(
        AnthropicClient::parse_model_ids(r#"{"models":[]}"#).unwrap_err(),
        AiClientError::Request("model list response missing data array".to_string())
    );
    match OpenAiCompatibleClient::parse_model_ids("nope").unwrap_err() {
        AiClientError::Request(m) => assert!(m.starts_with("invalid model list JSON: ")),
        other => panic!("unexpected {other:?}"),
    }
}

#[test]
fn models_reply_reads_success_and_reports_errors() {
    let openai = provider(AiProviderKind::OpenAiCompatible);
    assert_eq!(
        models_reply(200, r#"{"data":[{"id":"a"}]}"#, &openai, "dummy-api-key").unwrap(),
        vec!["a".to_string()]
    );
    let err = models_reply(404, r#"{"error":{"message":"models endpoint not found"}}"#, &openai, "dummy-api-key").unwrap_err();
    assert_eq!(
        err,
        AiClientError::Request("HTTP 404 Not Found: models endpoint not found".to_string())
    );
}

#[test]
fn endpoints_are_built_from_the_trimmed_base_url() {
    assert_eq!(
        AnthropicClient::endpoint(" https://api.anthropic.com/v1/ ").unwrap(),
        "https://api.anthropic.com/v1/messages"
    );
    assert_eq!(
        AnthropicClient::models_endpoint("https://api.anthropic.com/v1").unwrap(),
        "https://api.anthropic.com/v1/models"
    );
    assert_eq!(
        GeminiClient::endpoint("https://g.example/v1beta/", " models/gemini-test ").unwrap(),
        "https://g.example/v1beta/models/gemini-test:streamGenerateContent?alt=sse"
    );
    assert_eq!(GeminiClient::endpoint(" / ", "m"), Err(AiClientError::MissingBaseUrl));
    assert_eq!(GeminiClient::endpoint("https://g", "models/"), Err(AiClientError::MissingModel));
    assert_eq!(normalized_model("  gemini-x "), Ok("gemini-x".to_string()));
    assert_eq!(OpenAiCompatibleClient::models_endpoint("  "), Err(AiClientError::MissingBaseUrl));
}

#[test]
fn requests_carry_the_protocol_headers() {
    let anthropic = provider(AiProviderKind::Anthropic);
    let request = AnthropicClient::chat_request(&anthropic, "dummy-api-key").unwrap();
    assert_eq!(request.url, "https://example.com/v1/messages");
    assert_eq!(request.bearer_token, None);
    assert_eq!(
        request.headers[request.headers.len() - 2..].to_vec(),
        vec![
            ("x-api-key".to_string(), "dummy-api-key".to_string()),
            ("anthropic-version".to_string(), "2023-06-01".to_string()),
        ]
    );
    let gemini = provider(AiProviderKind::Gemini);
    let request = GeminiClient::models_request(&gemini, "dummy-api-key").unwrap();
    assert_eq!(request.url, "https://example.com/v1/models");
    assert_eq!(
        request.headers.last().unwrap(),
        &("x-goog-api-key".to_string(), "dummy-api-key".to_string())
    );
    let openai = provider(AiProviderKind::OpenAiCompatible);
    let request = OpenAiCompatibleClient::models_request(&openai, "dummy-api-key").unwrap();
    assert_eq!(request.bearer_token.as_deref(), Some("dummy-api-key"));
    assert_eq!(request.headers.len(), 4);
    let mut no_model = openai.clone();
    no_model.model = "  ".to_string();
    assert_eq!(
        OpenAiCompatibleClient::chat_request(&no_model, "k").err(),
        Some(AiClientError::MissingModel)
    );
    assert_eq!(
        OpenAiCompatibleClient::models_request(&openai, " ").err(),
        Some(AiClientError::MissingApiKey)
    );
    assert!(matches!(
        AnthropicClient::headers(&anthropic, "bad\nkey"),
        Err(AiClientError::InvalidHeaderValue { .. })
    ));
}

#[test]
fn request_bodies_split_system_messages_out() {
    let messages = vec![
        ChatMessage::system("one"),
        ChatMessage::user("hello"),
        ChatMessage::system("two"),
        ChatMessage::assistant("earlier answer"),
    ];
    let anthropic = build_messages_request("model-x", &messages, true);
    assert_eq!(anthropic.system.as_deref(), Some("one\n\ntwo"));
    assert_eq!(anthropic.messages.len(), 2);
    assert_eq!(anthropic.messages[0].role, "user");
    assert_eq!(anthropic.messages[1].role, "assistant");
    assert_eq!(anthropic.max_tokens, 2048);

    let gemini = build_generate_content_request(&messages);
    let system = gemini.system_instruction.expect("system instruction");
    assert_eq!(system.role, None);
    assert_eq!(system.parts.len(), 2);
    assert_eq!(gemini.contents.len(), 2);
    assert_eq!(gemini.contents[1].role.as_deref(), Some("model"));
    assert_eq!(gemini.contents[1].parts[0].text, "earlier answer");

    let only_user = build_messages_request("model-x", &vec![ChatMessage::user("x")], false);
    assert_eq!(only_user.system, None);
}
