//! The Anthropic messages protocol: its request body, endpoints, headers and
//! streamed answer.
use vstd::prelude::*;

use crate::ai::openai_compatible::{
    build_http_client, first_header_error, header_ok, spec_header_value_error, spec_model_list,
    spec_validate_provider, trimmed_base, AiClientError, ChatMessage, ProviderHttpRequest,
    SseParseResult,
};
use crate::ai::response::spec_provider_error_message;
use crate::ai::sse::{
    data_payload, lemma_string_seq_views_push, opt_view, sse_scan, string_seq_views, take_line,
    LineOutcome,
};
use crate::config::ipc::header_views;
use crate::config::AiProviderConfig;
use crate::json::{as_str, get_key, spec_parse_json, JsonValue};
use crate::text::trim;

verus! {

/// The version of the protocol the requests ask for.
pub open spec fn anthropic_version() -> Seq<char> {
    "2023-06-01"@
}

/// The most tokens an answer may have.
pub const MAX_TOKENS: u32 = 2048;

#[derive(Debug, Clone, PartialEq)]
pub struct AnthropicMessage {
    pub role: String,
    pub content: String,
}

#[derive(Debug, Clone, PartialEq)]
pub struct AnthropicMessagesRequest {
    pub model: String,
    pub max_tokens: u32,
    pub system: Option<String>,
    pub messages: Vec<AnthropicMessage>,
    pub stream: bool,
}

/// The system texts of a conversation, in order.
pub open spec fn system_texts(ms: Seq<ChatMessage>) -> Seq<Seq<char>>
    decreases ms.len(),
{
    if ms.len() == 0 {
        seq![]
    } else if ms.last().role@ == "system"@ {
        system_texts(ms.drop_last()).push(ms.last().content@)
    } else {
        system_texts(ms.drop_last())
    }
}

/// The other messages, as (role, content): `assistant` stays, any other role
/// becomes `user`.
pub open spec fn conversation(ms: Seq<ChatMessage>) -> Seq<(Seq<char>, Seq<char>)>
    decreases ms.len(),
{
    if ms.len() == 0 {
        seq![]
    } else if ms.last().role@ == "system"@ {
        conversation(ms.drop_last())
    } else if ms.last().role@ == "assistant"@ {
        conversation(ms.drop_last()).push(("assistant"@, ms.last().content@))
    } else {
        conversation(ms.drop_last()).push(("user"@, ms.last().content@))
    }
}

/// `[..].join(sep)`.
pub open spec fn join_with(ws: Seq<Seq<char>>, sep: Seq<char>) -> Seq<char>
    decreases ws.len(),
{
    if ws.len() == 0 {
        seq![]
    } else if ws.len() == 1 {
        ws[0]
    } else {
        join_with(ws.drop_last(), sep) + sep + ws.last()
    }
}

pub open spec fn message_views(ms: Seq<AnthropicMessage>) -> Seq<(Seq<char>, Seq<char>)> {
    ms.map_values(|m: AnthropicMessage| (m.role@, m.content@))
}

/// The body of a messages request: the system messages joined by a blank
/// line into the system text, the others in order.
pub fn build_messages_request(model: &str, messages: &Vec<ChatMessage>, stream: bool) -> (r:
    AnthropicMessagesRequest)
    ensures
        r.model@ == model@,
        r.max_tokens == MAX_TOKENS,
        r.stream == stream,
        system_texts(messages@).len() == 0 ==> r.system is None,
        system_texts(messages@).len() > 0 ==> (r.system matches Some(s) && s@ == join_with(
            system_texts(messages@),
            "\n\n"@,
        )),
        message_views(r.messages@) == conversation(messages@),
{
    let mut system: Vec<char> = Vec::new();
    let mut has_system: bool = false;
    let mut out: Vec<AnthropicMessage> = Vec::new();
    let mut i: usize = 0;
    assert(messages@.subrange(0, 0) =~= Seq::<ChatMessage>::empty());
    while i < messages.len()
        invariant
            i <= messages@.len(),
            has_system == (system_texts(messages@.subrange(0, i as int)).len() > 0),
            system@ == join_with(system_texts(messages@.subrange(0, i as int)), "\n\n"@),
            message_views(out@) == conversation(messages@.subrange(0, i as int)),
        decreases messages.len() - i,
    {
        let ghost pre = messages@.subrange(0, i as int);
        assert(messages@.subrange(0, i + 1).drop_last() =~= pre);
        assert(messages@.subrange(0, i + 1).last() == messages@[i as int]);
        let role = crate::text::chars_of(messages[i].role.as_str());
        let system_role = crate::text::chars_of("system");
        let assistant_role = crate::text::chars_of("assistant");
        if crate::text::chars_eq(&role, &system_role) {
            if has_system {
                crate::text::push_str(&mut system, "\n\n");
            }
            crate::text::push_str(&mut system, messages[i].content.as_str());
            has_system = true;
            proof {
                let ws = system_texts(pre);
                let w = messages@[i as int].content@;
                assert(ws.push(w).drop_last() =~= ws);
                if ws.len() == 0 {
                    assert(system@ =~= join_with(ws.push(w), "\n\n"@));
                }
            }
        } else {
            let ghost before = out@;
            let new_role = if crate::text::chars_eq(&role, &assistant_role) {
                crate::text::owned("assistant")
            } else {
                crate::text::owned("user")
            };
            out.push(
                AnthropicMessage {
                    role: new_role,
                    content: crate::text::owned(messages[i].content.as_str()),
                },
            );
            proof {
                assert forall|k: int| 0 <= k < out@.len() implies message_views(out@)[k]
                    == conversation(messages@.subrange(0, i + 1))[k] by {
                    if k < before.len() {
                        assert(out@[k] == before[k]);
                        assert(message_views(before)[k] == conversation(pre)[k]);
                    }
                }
                assert(message_views(out@) =~= conversation(messages@.subrange(0, i + 1)));
            }
        }
        i = i + 1;
    }
    assert(messages@.subrange(0, messages@.len() as int) =~= messages@);
    AnthropicMessagesRequest {
        model: crate::text::owned(model),
        max_tokens: MAX_TOKENS,
        system: if has_system {
            Some(crate::text::string_of(&system))
        } else {
            None
        },
        messages: out,
        stream,
    }
}

/// The error message of an `error` event, if the event is one.
pub open spec fn anthropic_error(data: Seq<char>) -> Option<Seq<char>> {
    if as_str(get_key(spec_parse_json(data), "type"@)) == Some("error"@) {
        spec_provider_error_message(data)
    } else {
        None
    }
}

/// The text of a `content_block_delta` event with a `text_delta`.
pub open spec fn anthropic_delta(data: Seq<char>) -> Option<Seq<char>> {
    let v = spec_parse_json(data);
    let delta = get_key(v, "delta"@);
    if as_str(get_key(v, "type"@)) == Some("content_block_delta"@) && as_str(get_key(delta, "type"@))
        == Some("text_delta"@) {
        as_str(get_key(delta, "text"@))
    } else {
        None
    }
}

/// A `message_stop` event ends the answer.
pub open spec fn anthropic_done(data: Seq<char>) -> bool {
    as_str(get_key(spec_parse_json(data), "type"@)) == Some("message_stop"@)
}

/// What an Anthropic stream line asks for: an `error` event ends the stream
/// with its message; otherwise the line may carry a delta and may end the
/// answer.
pub open spec fn anthropic_line(line: Seq<char>) -> LineOutcome {
    match data_payload(line) {
        Some(data) => match anthropic_error(data) {
            Some(m) => (Some("Anthropic stream error: "@ + m), None, false),
            None => (None, anthropic_delta(data), anthropic_done(data)),
        },
        None => (None, None, false),
    }
}

pub open spec fn anthropic_line_fn() -> spec_fn(Seq<char>) -> LineOutcome {
    |line: Seq<char>| anthropic_line(line)
}

/// The `type` member of a JSON value, where it is a string.
fn type_of(v: &JsonValue) -> (r: Option<String>)
    ensures
        opt_view(r) == as_str(get_key(Some(*v), "type"@)),
{
    match crate::json::member(v, "type") {
        Some(t) => crate::json::string_value(t),
        None => None,
    }
}

/// The `type` member of a parsed event, where it is a string.
fn event_type(value: &Option<JsonValue>) -> (r: Option<String>)
    ensures
        opt_view(r) == as_str(get_key(*value, "type"@)),
{
    match value {
        Some(v) => type_of(v),
        None => None,
    }
}

fn is_text(s: &Option<String>, expected: &str) -> (r: bool)
    ensures
        r == (opt_view(*s) == Some(expected@)),
{
    match s {
        Some(t) => {
            let a = crate::text::chars_of(t.as_str());
            let b = crate::text::chars_of(expected);
            crate::text::chars_eq(&a, &b)
        },
        None => false,
    }
}

/// The error message of an `error` event (see `anthropic_error`).
pub fn extract_anthropic_error_message(data: &str) -> (r: Option<String>)
    ensures
        opt_view(r) == anthropic_error(data@),
{
    let value = crate::json::parse_json(data);
    let kind = event_type(&value);
    if is_text(&kind, "error") {
        crate::ai::response::provider_error_message(data)
    } else {
        None
    }
}

/// The text of a delta event (see `anthropic_delta`).
pub fn extract_anthropic_delta_content(data: &str) -> (r: Option<String>)
    ensures
        opt_view(r) == anthropic_delta(data@),
{
    let value = crate::json::parse_json(data);
    let kind = event_type(&value);
    if !is_text(&kind, "content_block_delta") {
        return None;
    }
    let v = match &value {
        Some(v) => v,
        None => return None,
    };
    let delta = match crate::json::member(v, "delta") {
        Some(d) => d,
        None => return None,
    };
    let delta_kind = type_of(delta);
    if !is_text(&delta_kind, "text_delta") {
        return None;
    }
    match crate::json::member(delta, "text") {
        Some(t) => crate::json::string_value(t),
        None => None,
    }
}

/// Whether the event ends the answer (see `anthropic_done`).
pub fn is_anthropic_done(data: &str) -> (r: bool)
    ensures
        r == anthropic_done(data@),
{
    let value = crate::json::parse_json(data);
    let kind = event_type(&value);
    is_text(&kind, "message_stop")
}

/// Appends `chunk` to the bytes kept from earlier chunks and reads every
/// complete line, up to an error event or the end of the answer; an
/// incomplete last line stays in `buffer`.
pub fn extract_anthropic_sse_deltas_from_bytes(buffer: &mut Vec<u8>, chunk: &[u8]) -> (r: Result<
    SseParseResult,
    AiClientError,
>)
    ensures
        ({
            let scan = sse_scan(old(buffer)@ + chunk@, seq![], anthropic_line_fn());
            &&& final(buffer)@ == scan.1
            &&& match r {
                Ok(p) => scan.0 == Ok::<(Seq<Seq<char>>, bool), Seq<char>>(
                    (string_seq_views(p.deltas@), p.done),
                ),
                Err(e) => scan.0 matches Err(m) && e == AiClientError::Request(e->Request_0)
                    && e->Request_0@ == m,
            }
        }),
{
    crate::ai::sse::append_bytes(buffer, chunk);
    let ghost total = buffer@;
    let mut deltas: Vec<String> = Vec::new();
    assert(string_seq_views(deltas@) =~= seq![]);
    loop
        invariant
            total == old(buffer)@ + chunk@,
            sse_scan(total, seq![], anthropic_line_fn()) == sse_scan(
                buffer@,
                string_seq_views(deltas@),
                anthropic_line_fn(),
            ),
        decreases buffer@.len(),
    {
        let ghost before = buffer@;
        proof {
            crate::ai::sse::lemma_newline_from_bounds(before, 0);
        }
        match take_line(buffer) {
            None => {
                return Ok(SseParseResult { deltas, done: false });
            },
            Some(Err(message)) => {
                return Err(AiClientError::Request(message));
            },
            Some(Ok(line)) => {
                let chars = crate::text::chars_of(line.as_str());
                match crate::ai::sse::data_payload_of(&chars) {
                    None => {},
                    Some(data) => {
                        let data_text = crate::text::string_of(&data);
                        match extract_anthropic_error_message(data_text.as_str()) {
                            Some(message) => {
                                let mut text = crate::text::chars_of("Anthropic stream error: ");
                                crate::text::push_str(&mut text, message.as_str());
                                return Err(AiClientError::Request(crate::text::string_of(&text)));
                            },
                            None => {},
                        }
                        match extract_anthropic_delta_content(data_text.as_str()) {
                            Some(delta) => {
                                proof {
                                    lemma_string_seq_views_push(deltas@, delta);
                                }
                                deltas.push(delta);
                            },
                            None => {},
                        }
                        if is_anthropic_done(data_text.as_str()) {
                            return Ok(SseParseResult { deltas, done: true });
                        }
                    },
                }
            },
        }
    }
}

/// The Anthropic messages protocol, authorised with an `x-api-key` header.
pub struct AnthropicClient {
    http: reqwest::Client,
}

impl AnthropicClient {
    pub fn new() -> Self {
        AnthropicClient { http: build_http_client() }
    }

    pub fn endpoint(base_url: &str) -> (r: Result<String, AiClientError>)
        ensures
            match r {
                Ok(e) => trimmed_base(base_url@).len() > 0 && e@ == trimmed_base(base_url@)
                    + "/messages"@,
                Err(e) => trimmed_base(base_url@).len() == 0 && e == AiClientError::MissingBaseUrl,
            },
    {
        crate::ai::openai_compatible::join_endpoint(base_url, "/messages")
    }

    pub fn models_endpoint(base_url: &str) -> (r: Result<String, AiClientError>)
        ensures
            match r {
                Ok(e) => trimmed_base(base_url@).len() > 0 && e@ == trimmed_base(base_url@)
                    + "/models"@,
                Err(e) => trimmed_base(base_url@).len() == 0 && e == AiClientError::MissingBaseUrl,
            },
    {
        crate::ai::openai_compatible::join_endpoint(base_url, "/models")
    }

    /// The ids of the `data` array of a model list reply.
    pub fn parse_model_ids(body: &str) -> (r: Result<Vec<String>, AiClientError>)
        ensures
            match spec_model_list(body@, "data"@, "id"@) {
                Ok(ids) => r matches Ok(v) && string_seq_views(v@) == ids,
                Err(m) => r matches Err(AiClientError::Request(x)) && x@ == m,
            },
    {
        crate::ai::openai_compatible::model_list(body, "data", "id")
    }

    /// The provider's headers, then `x-api-key` with the key and
    /// `anthropic-version`.
    pub fn headers(provider: &AiProviderConfig, api_key: &str) -> (r: Result<
        Vec<(String, String)>,
        AiClientError,
    >)
        ensures
            match r {
                Ok(v) => header_views(v@) == header_views(provider.headers@) + seq![
                    ("x-api-key"@, api_key@),
                    ("anthropic-version"@, anthropic_version()),
                ] && spec_header_value_error(api_key@) is None,
                Err(e) => first_header_error(e, provider.headers@) || (all_headers_ok(provider.headers@)
                    && is_key_header_error(e, "x-api-key"@, api_key@)),
            },
    {
        api_key_headers(provider, api_key, "x-api-key", true)
    }

    /// The model list request: base URL and key are required, then the
    /// endpoint and the headers.
    pub fn models_request(provider: &AiProviderConfig, api_key: &str) -> (r: Result<
        ProviderHttpRequest,
        AiClientError,
    >)
        ensures
            trim(provider.base_url@).len() == 0 ==> r == Err::<ProviderHttpRequest, AiClientError>(
                AiClientError::MissingBaseUrl,
            ),
            trim(provider.base_url@).len() > 0 && trim(api_key@).len() == 0 ==> r == Err::<
                ProviderHttpRequest,
                AiClientError,
            >(AiClientError::MissingApiKey),
            r matches Ok(req) ==> req.url@ == trimmed_base(provider.base_url@) + "/models"@
                && header_views(req.headers@) == header_views(provider.headers@) + seq![
                ("x-api-key"@, api_key@),
                ("anthropic-version"@, anthropic_version()),
            ] && req.bearer_token is None,
    {
        if crate::text::trim_str(provider.base_url.as_str()).len() == 0 {
            return Err(AiClientError::MissingBaseUrl);
        }
        if crate::text::trim_str(api_key).len() == 0 {
            return Err(AiClientError::MissingApiKey);
        }
        let url = match Self::models_endpoint(provider.base_url.as_str()) {
            Ok(u) => u,
            Err(e) => return Err(e),
        };
        let headers = match Self::headers(provider, api_key) {
            Ok(h) => h,
            Err(e) => return Err(e),
        };
        Ok(ProviderHttpRequest { url, headers, bearer_token: None })
    }

    /// The chat request: the provider is validated, then the endpoint and
    /// the headers are made.
    pub fn chat_request(provider: &AiProviderConfig, api_key: &str) -> (r: Result<
        ProviderHttpRequest,
        AiClientError,
    >)
        ensures
            spec_validate_provider(*provider, api_key@) matches Err(e) ==> r == Err::<
                ProviderHttpRequest,
                AiClientError,
            >(e),
            r matches Ok(req) ==> req.url@ == trimmed_base(provider.base_url@) + "/messages"@
                && header_views(req.headers@) == header_views(provider.headers@) + seq![
                ("x-api-key"@, api_key@),
                ("anthropic-version"@, anthropic_version()),
            ] && req.bearer_token is None,
    {
        match crate::ai::openai_compatible::OpenAiCompatibleClient::validate_provider(
            provider,
            api_key,
        ) {
            Err(e) => return Err(e),
            Ok(()) => {},
        }
        let url = match Self::endpoint(provider.base_url.as_str()) {
            Ok(u) => u,
            Err(e) => return Err(e),
        };
        let headers = match Self::headers(provider, api_key) {
            Ok(h) => h,
            Err(e) => return Err(e),
        };
        Ok(ProviderHttpRequest { url, headers, bearer_token: None })
    }
}

impl Default for AnthropicClient {
    fn default() -> Self {
        Self::new()
    }
}

/// Every header of `hs` is accepted.
pub open spec fn all_headers_ok(hs: Seq<(String, String)>) -> bool {
    forall|i: int| 0 <= i < hs.len() ==> header_ok(#[trigger] hs[i])
}

/// `e` is the error of the key header `header` carrying `key`.
pub open spec fn is_key_header_error(e: AiClientError, header: Seq<char>, key: Seq<char>) -> bool {
    match spec_header_value_error(key) {
        Some(m) => e matches AiClientError::InvalidHeaderValue { name, message } && name@ == header
            && message@ == m,
        None => false,
    }
}

/// The provider's headers, then the key under `key_header`, and the
/// protocol version where `with_version` is set.
pub(crate) fn api_key_headers(
    provider: &AiProviderConfig,
    api_key: &str,
    key_header: &str,
    with_version: bool,
) -> (r: Result<Vec<(String, String)>, AiClientError>)
    ensures
        match r {
            Ok(v) => header_views(v@) == header_views(provider.headers@) + if with_version {
                seq![(key_header@, api_key@), ("anthropic-version"@, anthropic_version())]
            } else {
                seq![(key_header@, api_key@)]
            } && spec_header_value_error(api_key@) is None,
            Err(e) => first_header_error(e, provider.headers@) || (all_headers_ok(provider.headers@)
                && is_key_header_error(e, key_header@, api_key@)),
        },
{
    let mut headers = match crate::ai::openai_compatible::validated_headers(&provider.headers) {
        Ok(h) => h,
        Err(e) => return Err(e),
    };
    match crate::ai::openai_compatible::header_value_error(api_key) {
        Some(message) => {
            return Err(AiClientError::InvalidHeaderValue { name: crate::text::owned(key_header), message });
        },
        None => {},
    }
    let ghost before = headers@;
    headers.push((crate::text::owned(key_header), crate::text::owned(api_key)));
    if with_version {
        headers.push((crate::text::owned("anthropic-version"), crate::text::owned("2023-06-01")));
    }
    proof {
        assert(header_views(headers@) =~= header_views(before) + if with_version {
            seq![(key_header@, api_key@), ("anthropic-version"@, anthropic_version())]
        } else {
            seq![(key_header@, api_key@)]
        });
    }
    Ok(headers)
}

} // verus!
