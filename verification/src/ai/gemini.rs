//! The Gemini `streamGenerateContent` protocol: its request body, endpoints,
//! headers and streamed answer.
use vstd::prelude::*;

use crate::ai::anthropic::{all_headers_ok, is_key_header_error, system_texts};
use crate::ai::openai_compatible::{
    build_http_client, first_header_error, spec_header_value_error, spec_model_list,
    spec_validate_provider, string_fields, trimmed_base, AiClientError, ChatMessage,
    ProviderHttpRequest, SseParseResult,
};
use crate::ai::sse::{
    data_payload, lemma_string_seq_views_push, opt_view, sse_scan, string_seq_views, take_line,
    LineOutcome,
};
use crate::config::ipc::header_views;
use crate::config::AiProviderConfig;
use crate::json::{as_array, get_index, get_key, spec_parse_json, JsonValue};
use crate::text::{starts_with, trim};

verus! {

#[derive(Debug, Clone, PartialEq)]
pub struct GeminiPart {
    pub text: String,
}

#[derive(Debug, Clone, PartialEq)]
pub struct GeminiContent {
    pub role: Option<String>,
    pub parts: Vec<GeminiPart>,
}

#[derive(Debug, Clone, PartialEq)]
pub struct GeminiGenerateContentRequest {
    pub system_instruction: Option<GeminiContent>,
    pub contents: Vec<GeminiContent>,
}

/// The turns of a conversation other than the system messages, as (role,
/// text): `assistant` becomes `model`, any other role `user`.
pub open spec fn gemini_turns(ms: Seq<ChatMessage>) -> Seq<(Seq<char>, Seq<char>)>
    decreases ms.len(),
{
    if ms.len() == 0 {
        seq![]
    } else if ms.last().role@ == "system"@ {
        gemini_turns(ms.drop_last())
    } else if ms.last().role@ == "assistant"@ {
        gemini_turns(ms.drop_last()).push(("model"@, ms.last().content@))
    } else {
        gemini_turns(ms.drop_last()).push(("user"@, ms.last().content@))
    }
}

/// A content with one part, viewed as (role, text).
pub open spec fn turn_view(c: GeminiContent) -> (Seq<char>, Seq<char>) {
    (
        match c.role {
            Some(r) => r@,
            None => Seq::empty(),
        },
        c.parts@[0].text@,
    )
}

pub open spec fn part_texts(ps: Seq<GeminiPart>) -> Seq<Seq<char>> {
    ps.map_values(|p: GeminiPart| p.text@)
}

/// The body of a request: the system messages as the parts of the system
/// instruction, the others as one-part turns with a role.
pub fn build_generate_content_request(messages: &Vec<ChatMessage>) -> (r:
    GeminiGenerateContentRequest)
    ensures
        system_texts(messages@).len() == 0 ==> r.system_instruction is None,
        system_texts(messages@).len() > 0 ==> (r.system_instruction matches Some(c) && c.role is None
            && part_texts(c.parts@) == system_texts(messages@)),
        r.contents@.len() == gemini_turns(messages@).len(),
        forall|k: int|
            0 <= k < r.contents@.len() ==> (#[trigger] r.contents@[k]).role is Some
                && r.contents@[k].parts@.len() == 1 && turn_view(r.contents@[k]) == gemini_turns(
                messages@,
            )[k],
{
    let mut system_parts: Vec<GeminiPart> = Vec::new();
    let mut contents: Vec<GeminiContent> = Vec::new();
    let mut i: usize = 0;
    assert(messages@.subrange(0, 0) =~= Seq::<ChatMessage>::empty());
    while i < messages.len()
        invariant
            i <= messages@.len(),
            part_texts(system_parts@) == system_texts(messages@.subrange(0, i as int)),
            contents@.len() == gemini_turns(messages@.subrange(0, i as int)).len(),
            forall|k: int|
                0 <= k < contents@.len() ==> (#[trigger] contents@[k]).role is Some
                    && contents@[k].parts@.len() == 1 && turn_view(contents@[k]) == gemini_turns(
                    messages@.subrange(0, i as int),
                )[k],
        decreases messages.len() - i,
    {
        let ghost pre = messages@.subrange(0, i as int);
        assert(messages@.subrange(0, i + 1).drop_last() =~= pre);
        assert(messages@.subrange(0, i + 1).last() == messages@[i as int]);
        let role = crate::text::chars_of(messages[i].role.as_str());
        let system_role = crate::text::chars_of("system");
        let assistant_role = crate::text::chars_of("assistant");
        let text = crate::text::owned(messages[i].content.as_str());
        if crate::text::chars_eq(&role, &system_role) {
            let ghost before = system_parts@;
            system_parts.push(GeminiPart { text });
            assert(part_texts(system_parts@) =~= part_texts(before).push(messages@[i as int].content@));
        } else {
            let new_role = if crate::text::chars_eq(&role, &assistant_role) {
                crate::text::owned("model")
            } else {
                crate::text::owned("user")
            };
            let mut parts: Vec<GeminiPart> = Vec::new();
            parts.push(GeminiPart { text });
            let ghost before = contents@;
            contents.push(GeminiContent { role: Some(new_role), parts });
            assert forall|k: int| 0 <= k < contents@.len() implies (#[trigger] contents@[k]).role is Some
                && contents@[k].parts@.len() == 1 && turn_view(contents@[k]) == gemini_turns(
                messages@.subrange(0, i + 1),
            )[k] by {
                if k < before.len() {
                    assert(contents@[k] == before[k]);
                }
            }
        }
        i = i + 1;
    }
    assert(messages@.subrange(0, messages@.len() as int) =~= messages@);
    let system_instruction = if system_parts.len() > 0 {
        Some(GeminiContent { role: None, parts: system_parts })
    } else {
        None
    };
    GeminiGenerateContentRequest { system_instruction, contents }
}

/// The texts of `ws` run together.
pub open spec fn concat_all(ws: Seq<Seq<char>>) -> Seq<char>
    decreases ws.len(),
{
    if ws.len() == 0 {
        seq![]
    } else {
        concat_all(ws.drop_last()) + ws.last()
    }
}

/// The text of a streamed chunk: the texts of the parts of the first
/// candidate's content run together, where that is not empty.
pub open spec fn gemini_delta(data: Seq<char>) -> Option<Seq<char>> {
    let parts = as_array(
        get_key(get_key(get_index(get_key(spec_parse_json(data), "candidates"@), 0), "content"@), "parts"@),
    );
    match parts {
        Some(ps) => {
            let text = concat_all(string_fields(ps, "text"@));
            if text.len() > 0 {
                Some(text)
            } else {
                None
            }
        },
        None => None,
    }
}

/// What a Gemini stream line asks for: a `data:` line may carry a delta;
/// the stream only ends with the connection.
pub open spec fn gemini_line(line: Seq<char>) -> LineOutcome {
    match data_payload(line) {
        Some(data) => (None, gemini_delta(data), false),
        None => (None, None, false),
    }
}

pub open spec fn gemini_line_fn() -> spec_fn(Seq<char>) -> LineOutcome {
    |line: Seq<char>| gemini_line(line)
}

/// The text of a streamed chunk (see `gemini_delta`).
pub fn extract_gemini_delta_content(data: &str) -> (r: Option<String>)
    ensures
        opt_view(r) == gemini_delta(data@),
{
    let value = match crate::json::parse_json(data) {
        Some(v) => v,
        None => return None,
    };
    let candidates = match crate::json::member(&value, "candidates") {
        Some(c) => c,
        None => return None,
    };
    let first = match crate::json::element(candidates, 0) {
        Some(c) => c,
        None => return None,
    };
    let content = match crate::json::member(first, "content") {
        Some(c) => c,
        None => return None,
    };
    let parts = match crate::json::member(content, "parts") {
        Some(JsonValue::Array(items)) => items,
        _ => return None,
    };
    let mut text: Vec<char> = Vec::new();
    let mut i: usize = 0;
    assert(parts@.subrange(0, 0) =~= Seq::<JsonValue>::empty());
    while i < parts.len()
        invariant
            i <= parts@.len(),
            text@ == concat_all(string_fields(parts@.subrange(0, i as int), "text"@)),
        decreases parts.len() - i,
    {
        assert(parts@.subrange(0, i + 1).drop_last() =~= parts@.subrange(0, i as int));
        assert(parts@.subrange(0, i + 1).last() == parts@[i as int]);
        match crate::json::member(&parts[i], "text") {
            Some(t) => match crate::json::string_value(t) {
                Some(s) => {
                    let ghost ws = string_fields(parts@.subrange(0, i as int), "text"@);
                    assert(ws.push(s@).drop_last() =~= ws);
                    crate::text::push_str(&mut text, s.as_str());
                },
                None => {},
            },
            None => {},
        }
        i = i + 1;
    }
    assert(parts@.subrange(0, parts@.len() as int) =~= parts@);
    if text.len() > 0 {
        Some(crate::text::string_of(&text))
    } else {
        None
    }
}

/// Appends `chunk` to the bytes kept from earlier chunks and reads every
/// complete line; an incomplete last line stays in `buffer`. The stream is
/// never marked done by a line.
pub fn extract_gemini_sse_deltas_from_bytes(buffer: &mut Vec<u8>, chunk: &[u8]) -> (r: Result<
    SseParseResult,
    AiClientError,
>)
    ensures
        ({
            let scan = sse_scan(old(buffer)@ + chunk@, seq![], gemini_line_fn());
            &&& final(buffer)@ == scan.1
            &&& match r {
                Ok(p) => scan.0 == Ok::<(Seq<Seq<char>>, bool), Seq<char>>(
                    (string_seq_views(p.deltas@), p.done),
                ) && !p.done,
                Err(e) => scan.0 matches Err(m) && e == AiClientError::Request(e->Request_0)
                    && e->Request_0@ == m,
            }
        }),
{
    crate::ai::sse::append_bytes(buffer, chunk);
    let ghost total = buffer@;
    let mut deltas: Vec<String> = Vec::new();
    assert(string_seq_views(deltas@) =~= seq![]);
    loop
        invariant
            total == old(buffer)@ + chunk@,
            sse_scan(total, seq![], gemini_line_fn()) == sse_scan(
                buffer@,
                string_seq_views(deltas@),
                gemini_line_fn(),
            ),
        decreases buffer@.len(),
    {
        let ghost before = buffer@;
        proof {
            crate::ai::sse::lemma_newline_from_bounds(before, 0);
        }
        match take_line(buffer) {
            None => {
                return Ok(SseParseResult { deltas, done: false });
            },
            Some(Err(message)) => {
                return Err(AiClientError::Request(message));
            },
            Some(Ok(line)) => {
                let chars = crate::text::chars_of(line.as_str());
                match crate::ai::sse::data_payload_of(&chars) {
                    None => {},
                    Some(data) => {
                        let data_text = crate::text::string_of(&data);
                        match extract_gemini_delta_content(data_text.as_str()) {
                            Some(delta) => {
                                proof {
                                    lemma_string_seq_views_push(deltas@, delta);
                                }
                                deltas.push(delta);
                            },
                            None => {},
                        }
                    },
                }
            },
        }
    }
}

/// A model name without a leading `models/`.
pub open spec fn strip_models_prefix(s: Seq<char>) -> Seq<char> {
    if starts_with(s, "models/"@) {
        s.subrange(7, s.len() as int)
    } else {
        s
    }
}

/// The model of a request: trimmed, without `models/`; refused where
/// nothing is left.
pub open spec fn spec_normalized_model(model: Seq<char>) -> Option<Seq<char>> {
    let m = strip_models_prefix(trim(model));
    if m.len() > 0 {
        Some(m)
    } else {
        None
    }
}

fn strip_models(s: &[char]) -> (r: Vec<char>)
    ensures
        r@ == strip_models_prefix(s@),
{
    let prefix = crate::text::chars_of("models/");
    proof {
        reveal_strlit("models/");
    }
    if crate::text::starts_with_chars(s, &prefix) {
        crate::text::sub_chars(s, 7, s.len())
    } else {
        crate::text::copy_chars(s)
    }
}

/// The model of a request (see `spec_normalized_model`).
pub fn normalized_model(model: &str) -> (r: Result<String, AiClientError>)
    ensures
        match spec_normalized_model(model@) {
            Some(m) => r matches Ok(s) && s@ == m,
            None => r == Err::<String, AiClientError>(AiClientError::MissingModel),
        },
{
    let trimmed = crate::text::trim_str(model);
    let m = strip_models(&trimmed);
    if m.len() == 0 {
        return Err(AiClientError::MissingModel);
    }
    Ok(crate::text::string_of(&m))
}

/// The Gemini protocol, authorised with an `x-goog-api-key` header.
pub struct GeminiClient {
    http: reqwest::Client,
}

impl GeminiClient {
    pub fn new() -> Self {
        GeminiClient { http: build_http_client() }
    }

    /// The streaming endpoint of `model` under the base URL.
    pub fn endpoint(base_url: &str, model: &str) -> (r: Result<String, AiClientError>)
        ensures
            trimmed_base(base_url@).len() == 0 ==> r == Err::<String, AiClientError>(
                AiClientError::MissingBaseUrl,
            ),
            trimmed_base(base_url@).len() > 0 ==> match spec_normalized_model(model@) {
                Some(m) => r matches Ok(e) && e@ == trimmed_base(base_url@) + "/models/"@ + m
                    + ":streamGenerateContent?alt=sse"@,
                None => r == Err::<String, AiClientError>(AiClientError::MissingModel),
            },
    {
        let trimmed = crate::text::trim_str(base_url);
        let mut base = crate::text::trim_end_matches_char(&trimmed, '/');
        if base.len() == 0 {
            return Err(AiClientError::MissingBaseUrl);
        }
        let m = match normalized_model(model) {
            Ok(m) => m,
            Err(e) => return Err(e),
        };
        crate::text::push_str(&mut base, "/models/");
        crate::text::push_str(&mut base, m.as_str());
        crate::text::push_str(&mut base, ":streamGenerateContent?alt=sse");
        Ok(crate::text::string_of(&base))
    }

    pub fn models_endpoint(base_url: &str) -> (r: Result<String, AiClientError>)
        ensures
            match r {
                Ok(e) => trimmed_base(base_url@).len() > 0 && e@ == trimmed_base(base_url@)
                    + "/models"@,
                Err(e) => trimmed_base(base_url@).len() == 0 && e == AiClientError::MissingBaseUrl,
            },
    {
        crate::ai::openai_compatible::join_endpoint(base_url, "/models")
    }

    /// The names of the `models` array of a model list reply, without
    /// `models/`.
    pub fn parse_model_ids(body: &str) -> (r: Result<Vec<String>, AiClientError>)
        ensures
            match spec_model_list(body@, "models"@, "name"@) {
                Ok(ids) => r matches Ok(v) && string_seq_views(v@) == ids.map_values(
                    |s: Seq<char>| strip_models_prefix(s),
                ),
                Err(m) => r matches Err(AiClientError::Request(x)) && x@ == m,
            },
    {
        let names = match crate::ai::openai_compatible::model_list(body, "models", "name") {
            Ok(n) => n,
            Err(e) => return Err(e),
        };
        let mut ids: Vec<String> = Vec::new();
        let mut i: usize = 0;
        while i < names.len()
            invariant
                i <= names@.len(),
                string_seq_views(ids@) == string_seq_views(names@.subrange(0, i as int)).map_values(
                    |s: Seq<char>| strip_models_prefix(s),
                ),
            decreases names.len() - i,
        {
            let chars = crate::text::chars_of(names[i].as_str());
            let id = crate::text::string_of(&strip_models(&chars));
            proof {
                lemma_string_seq_views_push(ids@, id);
            }
            ids.push(id);
            i = i + 1;
            assert(string_seq_views(ids@) =~= string_seq_views(names@.subrange(0, i as int)).map_values(
                |s: Seq<char>| strip_models_prefix(s),
            ));
        }
        assert(names@.subrange(0, names@.len() as int) =~= names@);
        Ok(ids)
    }

    /// The provider's headers, then `x-goog-api-key` with the key.
    pub fn headers(provider: &AiProviderConfig, api_key: &str) -> (r: Result<
        Vec<(String, String)>,
        AiClientError,
    >)
        ensures
            match r {
                Ok(v) => header_views(v@) == header_views(provider.headers@) + seq![
                    ("x-goog-api-key"@, api_key@),
                ] && spec_header_value_error(api_key@) is None,
                Err(e) => first_header_error(e, provider.headers@) || (all_headers_ok(provider.headers@)
                    && is_key_header_error(e, "x-goog-api-key"@, api_key@)),
            },
    {
        crate::ai::anthropic::api_key_headers(provider, api_key, "x-goog-api-key", false)
    }

    /// The model list request: base URL and key are required, then the
    /// endpoint and the headers.
    pub fn models_request(provider: &AiProviderConfig, api_key: &str) -> (r: Result<
        ProviderHttpRequest,
        AiClientError,
    >)
        ensures
            trim(provider.base_url@).len() == 0 ==> r == Err::<ProviderHttpRequest, AiClientError>(
                AiClientError::MissingBaseUrl,
            ),
            trim(provider.base_url@).len() > 0 && trim(api_key@).len() == 0 ==> r == Err::<
                ProviderHttpRequest,
                AiClientError,
            >(AiClientError::MissingApiKey),
            r matches Ok(req) ==> req.url@ == trimmed_base(provider.base_url@) + "/models"@
                && header_views(req.headers@) == header_views(provider.headers@) + seq![
                ("x-goog-api-key"@, api_key@),
            ] && req.bearer_token is None,
    {
        if crate::text::trim_str(provider.base_url.as_str()).len() == 0 {
            return Err(AiClientError::MissingBaseUrl);
        }
        if crate::text::trim_str(api_key).len() == 0 {
            return Err(AiClientError::MissingApiKey);
        }
        let url = match Self::models_endpoint(provider.base_url.as_str()) {
            Ok(u) => u,
            Err(e) => return Err(e),
        };
        let headers = match Self::headers(provider, api_key) {
            Ok(h) => h,
            Err(e) => return Err(e),
        };
        Ok(ProviderHttpRequest { url, headers, bearer_token: None })
    }

    /// The chat request: the provider is validated, then the endpoint of its
    /// model and the headers are made.
    pub fn chat_request(provider: &AiProviderConfig, api_key: &str) -> (r: Result<
        ProviderHttpRequest,
        AiClientError,
    >)
        ensures
            spec_validate_provider(*provider, api_key@) matches Err(e) ==> r == Err::<
                ProviderHttpRequest,
                AiClientError,
            >(e),
            r matches Ok(req) ==> (spec_normalized_model(provider.model@) matches Some(m) && req.url@
                == trimmed_base(provider.base_url@) + "/models/"@ + m
                + ":streamGenerateContent?alt=sse"@) && header_views(req.headers@) == header_views(
                provider.headers@,
            ) + seq![("x-goog-api-key"@, api_key@)] && req.bearer_token is None,
    {
        match crate::ai::openai_compatible::OpenAiCompatibleClient::validate_provider(
            provider,
            api_key,
        ) {
            Err(e) => return Err(e),
            Ok(()) => {},
        }
        let url = match Self::endpoint(provider.base_url.as_str(), provider.model.as_str()) {
            Ok(u) => u,
            Err(e) => return Err(e),
        };
        let headers = match Self::headers(provider, api_key) {
            Ok(h) => h,
            Err(e) => return Err(e),
        };
        Ok(ProviderHttpRequest { url, headers, bearer_token: None })
    }
}

impl Default for GeminiClient {
    fn default() -> Self {
        Self::new()
    }
}

} // verus!
