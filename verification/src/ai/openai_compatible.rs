//! The OpenAI-compatible chat protocol: request bodies, endpoints, the
//! model list and the streamed answer.
use vstd::prelude::*;

use crate::ai::sse::{
    data_payload, lemma_string_seq_views_push, opt_view, sse_scan, string_seq_views, take_line,
    LineOutcome,
};
use crate::config::ipc::header_views;
use crate::config::AiProviderConfig;
use crate::json::{as_array, as_str, get_index, get_key, spec_json_from_str, spec_parse_json, JsonValue};
use crate::text::{starts_with, trim, trim_end_char};

verus! {

#[derive(Debug, Clone, PartialEq)]
pub struct ChatMessage {
    pub role: String,
    pub content: String,
}

impl ChatMessage {
    pub fn system(content: &str) -> (m: Self)
        ensures
            m.role@ == "system"@,
            m.content@ == content@,
    {
        ChatMessage { role: crate::text::owned("system"), content: crate::text::owned(content) }
    }

    pub fn user(content: &str) -> (m: Self)
        ensures
            m.role@ == "user"@,
            m.content@ == content@,
    {
        ChatMessage { role: crate::text::owned("user"), content: crate::text::owned(content) }
    }

    pub fn assistant(content: &str) -> (m: Self)
        ensures
            m.role@ == "assistant"@,
            m.content@ == content@,
    {
        ChatMessage { role: crate::text::owned("assistant"), content: crate::text::owned(content) }
    }
}

#[derive(Debug, Clone, PartialEq)]
pub struct ChatCompletionRequest {
    pub model: String,
    pub messages: Vec<ChatMessage>,
    pub stream: bool,
}

#[derive(Debug, Clone, PartialEq)]
pub struct VisionChatCompletionRequest {
    pub model: String,
    pub messages: Vec<VisionChatMessage>,
    pub stream: bool,
}

#[derive(Debug, Clone, PartialEq)]
pub struct VisionChatMessage {
    pub role: String,
    pub content: VisionChatContent,
}

#[derive(Debug, Clone, PartialEq)]
pub enum VisionChatContent {
    Text(String),
    Parts(Vec<VisionChatContentPart>),
}

#[derive(Debug, Clone, PartialEq)]
pub enum VisionChatContentPart {
    Text { text: String },
    ImageUrl { image_url: VisionImageUrl },
}

#[derive(Debug, Clone, PartialEq)]
pub struct VisionImageUrl {
    pub url: String,
}

/// A system message with the instructions, then a user message carrying the
/// question and the image.
pub fn build_vision_chat_request(
    model: &str,
    system_prompt: &str,
    user_prompt: &str,
    image_data_url: &str,
    stream: bool,
) -> (r: VisionChatCompletionRequest)
    ensures
        r.model@ == model@,
        r.stream == stream,
        r.messages@.len() == 2,
        r.messages@[0].role@ == "system"@,
        r.messages@[0].content matches VisionChatContent::Text(t) && t@ == system_prompt@,
        r.messages@[1].role@ == "user"@,
        r.messages@[1].content matches VisionChatContent::Parts(parts) && parts@.len() == 2
            && (parts@[0] matches VisionChatContentPart::Text { text } && text@ == user_prompt@)
            && (parts@[1] matches VisionChatContentPart::ImageUrl { image_url }
            && image_url.url@ == image_data_url@),
{
    let mut parts: Vec<VisionChatContentPart> = Vec::new();
    parts.push(VisionChatContentPart::Text { text: crate::text::owned(user_prompt) });
    parts.push(
        VisionChatContentPart::ImageUrl {
            image_url: VisionImageUrl { url: crate::text::owned(image_data_url) },
        },
    );
    let mut messages: Vec<VisionChatMessage> = Vec::new();
    messages.push(
        VisionChatMessage {
            role: crate::text::owned("system"),
            content: VisionChatContent::Text(crate::text::owned(system_prompt)),
        },
    );
    messages.push(
        VisionChatMessage { role: crate::text::owned("user"), content: VisionChatContent::Parts(parts) },
    );
    VisionChatCompletionRequest { model: crate::text::owned(model), messages, stream }
}

pub fn build_chat_request(model: &str, messages: Vec<ChatMessage>, stream: bool) -> (r:
    ChatCompletionRequest)
    ensures
        r.model@ == model@,
        r.messages == messages,
        r.stream == stream,
{
    ChatCompletionRequest { model: crate::text::owned(model), messages, stream }
}

#[derive(Debug, Clone, PartialEq, Eq)]
pub enum AiClientError {
    MissingBaseUrl,
    MissingModel,
    MissingApiKey,
    InvalidHeaderName { name: String, message: String },
    InvalidHeaderValue { name: String, message: String },
    Request(String),
}

/// The text an `AiClientError` is shown as.
pub open spec fn spec_error_text(e: AiClientError) -> Seq<char> {
    match e {
        AiClientError::MissingBaseUrl => "provider base URL is empty"@,
        AiClientError::MissingModel => "provider model is empty"@,
        AiClientError::MissingApiKey => "provider API key is empty"@,
        AiClientError::InvalidHeaderName { name, message } => "invalid provider header name `"@
            + name@ + "`: "@ + message@,
        AiClientError::InvalidHeaderValue { name, message } =>
            "invalid provider header value for `"@ + name@ + "`: "@ + message@,
        AiClientError::Request(detail) => "request failed: "@ + detail@,
    }
}

impl AiClientError {
    /// The text the error is shown as.
    pub fn message(&self) -> (r: String)
        ensures
            r@ == spec_error_text(*self),
    {
        match self {
            AiClientError::MissingBaseUrl => crate::text::owned("provider base URL is empty"),
            AiClientError::MissingModel => crate::text::owned("provider model is empty"),
            AiClientError::MissingApiKey => crate::text::owned("provider API key is empty"),
            AiClientError::InvalidHeaderName { name, message } => {
                let mut out = crate::text::chars_of("invalid provider header name `");
                crate::text::push_str(&mut out, name.as_str());
                crate::text::push_str(&mut out, "`: ");
                crate::text::push_str(&mut out, message.as_str());
                crate::text::string_of(&out)
            },
            AiClientError::InvalidHeaderValue { name, message } => {
                let mut out = crate::text::chars_of("invalid provider header value for `");
                crate::text::push_str(&mut out, name.as_str());
                crate::text::push_str(&mut out, "`: ");
                crate::text::push_str(&mut out, message.as_str());
                crate::text::string_of(&out)
            },
            AiClientError::Request(detail) => {
                let mut out = crate::text::chars_of("request failed: ");
                crate::text::push_str(&mut out, detail.as_str());
                crate::text::string_of(&out)
            },
        }
    }
}

#[derive(Debug, Clone, PartialEq, Eq)]
pub struct SseParseResult {
    pub deltas: Vec<String>,
    pub done: bool,
}

/// `choices[0].delta.content` of a streamed chunk.
pub open spec fn openai_delta(v: Option<JsonValue>) -> Option<Seq<char>> {
    as_str(get_key(get_key(get_index(get_key(v, "choices"@), 0), "delta"@), "content"@))
}

/// What an OpenAI-compatible stream line asks for: `data: [DONE]` ends the
/// stream, any other `data:` line may carry a delta.
pub open spec fn openai_line(line: Seq<char>) -> LineOutcome {
    match data_payload(line) {
        Some(data) => if trim(data) == "[DONE]"@ {
            (None, None, true)
        } else {
            (None, openai_delta(spec_parse_json(data)), false)
        },
        None => (None, None, false),
    }
}

pub open spec fn openai_line_fn() -> spec_fn(Seq<char>) -> LineOutcome {
    |line: Seq<char>| openai_line(line)
}

/// The text at `choices[0].delta.content` of a chunk, where it is a string.
pub open spec fn content_at(v: Option<JsonValue>) -> Option<Seq<char>> {
    as_str(get_key(get_key(get_index(get_key(v, "choices"@), 0), "delta"@), "content"@))
}

/// A `data:` line other than `[DONE]` whose JSON holds a string at
/// `choices[0].delta.content` passes on exactly that string, whatever it
/// holds (a blank line or indentation included), and does not end the
/// stream; a line without one passes nothing on.
pub proof fn lemma_openai_line_passes_content_on(line: Seq<char>, data: Seq<char>)
    requires
        data_payload(line) == Some(data),
        trim(data) != "[DONE]"@,
    ensures
        content_at(spec_parse_json(data)) matches Some(s) ==> openai_line(line) == (
            None::<Seq<char>>,
            Some(s),
            false,
        ),
        content_at(spec_parse_json(data)) is None ==> openai_line(line) == (
            None::<Seq<char>>,
            None::<Seq<char>>,
            false,
        ),
{
}

/// The first newline of a line of bytes followed by `\n` is that `\n`.
proof fn lemma_newline_at_end(b: Seq<u8>, i: int)
    requires
        0 <= i <= b.len(),
        forall|k: int| 0 <= k < b.len() ==> b[k] != 10u8,
    ensures
        crate::ai::sse::newline_from(b.push(10u8), i) == Some(b.len() as int),
    decreases b.len() - i,
{
    if i < b.len() {
        assert(b.push(10u8)[i] == b[i]);
        lemma_newline_at_end(b, i + 1);
    } else {
        assert(b.push(10u8)[i] == 10u8);
    }
}

/// One complete `data:` line of a stream (valid UTF-8, ended by `\n`)
/// whose JSON holds a string at `choices[0].delta.content` is read as
/// exactly that delta, after those read before, with nothing held back.
pub proof fn lemma_data_line_bytes_yield_content(
    b: Seq<u8>,
    acc: Seq<Seq<char>>,
    data: Seq<char>,
    s: Seq<char>,
)
    requires
        forall|k: int| 0 <= k < b.len() ==> b[k] != 10u8,
        b.len() == 0 || b.last() != 13u8,
        vstd::utf8::valid_utf8(b),
        data_payload(vstd::utf8::decode_utf8(b)) == Some(data),
        trim(data) != "[DONE]"@,
        content_at(spec_parse_json(data)) == Some(s),
    ensures
        sse_scan(b.push(10u8), acc, openai_line_fn()) == (
            Ok::<(Seq<Seq<char>>, bool), Seq<char>>((acc.push(s), false)),
            Seq::<u8>::empty(),
        ),
{
    let all = b.push(10u8);
    lemma_newline_at_end(b, 0);
    assert(all.subrange(0, b.len() as int) =~= b);
    assert(all.subrange(b.len() + 1 as int, all.len() as int) =~= Seq::<u8>::empty());
    lemma_openai_line_passes_content_on(vstd::utf8::decode_utf8(b), data);
    assert(crate::ai::sse::strip_cr(b) == b);
    let f = openai_line_fn();
    assert(f(vstd::utf8::decode_utf8(b)) == openai_line(vstd::utf8::decode_utf8(b)));
    assert(crate::ai::sse::newline_from(Seq::<u8>::empty(), 0) is None);
    assert(sse_scan(Seq::<u8>::empty(), acc.push(s), f) == (
        Ok::<(Seq<Seq<char>>, bool), Seq<char>>((acc.push(s), false)),
        Seq::<u8>::empty(),
    ));
    assert(sse_scan(all, acc, f) == sse_scan(Seq::<u8>::empty(), acc.push(s), f));
}

/// The delta text of a parsed stream chunk.
pub fn delta_content_of(value: &JsonValue) -> (r: Option<String>)
    ensures
        opt_view(r) == openai_delta(Some(*value)),
        opt_view(r) == content_at(Some(*value)),
{
    let choices = match crate::json::member(value, "choices") {
        Some(v) => v,
        None => return None,
    };
    let first = match crate::json::element(choices, 0) {
        Some(v) => v,
        None => return None,
    };
    let delta = match crate::json::member(first, "delta") {
        Some(v) => v,
        None => return None,
    };
    let content = match crate::json::member(delta, "content") {
        Some(v) => v,
        None => return None,
    };
    crate::json::string_value(content)
}

/// The delta text of a stream chunk, `None` where the chunk is not JSON or
/// carries no text.
pub fn extract_delta_content(data: &str) -> (r: Option<String>)
    ensures
        opt_view(r) == openai_delta(spec_parse_json(data@)),
        opt_view(r) == content_at(spec_parse_json(data@)),
{
    match crate::json::parse_json(data) {
        Some(value) => delta_content_of(&value),
        None => None,
    }
}

/// Appends `chunk` to the bytes kept from earlier chunks and reads every
/// complete line; an incomplete last line stays in `buffer`.
pub fn extract_sse_deltas_from_bytes(buffer: &mut Vec<u8>, chunk: &[u8]) -> (r: Result<
    SseParseResult,
    AiClientError,
>)
    ensures
        ({
            let scan = sse_scan(old(buffer)@ + chunk@, seq![], openai_line_fn());
            &&& final(buffer)@ == scan.1
            &&& match r {
                Ok(p) => scan.0 == Ok::<(Seq<Seq<char>>, bool), Seq<char>>(
                    (string_seq_views(p.deltas@), p.done),
                ),
                Err(e) => scan.0 matches Err(m) && e == AiClientError::Request(e->Request_0)
                    && e->Request_0@ == m,
            }
        }),
{
    crate::ai::sse::append_bytes(buffer, chunk);
    let ghost total = buffer@;
    let mut deltas: Vec<String> = Vec::new();
    assert(string_seq_views(deltas@) =~= seq![]);
    loop
        invariant
            total == old(buffer)@ + chunk@,
            sse_scan(total, seq![], openai_line_fn()) == sse_scan(
                buffer@,
                string_seq_views(deltas@),
                openai_line_fn(),
            ),
        decreases buffer@.len(),
    {
        let ghost before = buffer@;
        proof {
            crate::ai::sse::lemma_newline_from_bounds(before, 0);
        }
        match take_line(buffer) {
            None => {
                return Ok(SseParseResult { deltas, done: false });
            },
            Some(Err(message)) => {
                return Err(AiClientError::Request(message));
            },
            Some(Ok(line)) => {
                let chars = crate::text::chars_of(line.as_str());
                match crate::ai::sse::data_payload_of(&chars) {
                    None => {},
                    Some(data) => {
                        let trimmed = crate::text::trim_chars(&data);
                        let done_marker = crate::text::chars_of("[DONE]");
                        if crate::text::chars_eq(&trimmed, &done_marker) {
                            return Ok(SseParseResult { deltas, done: true });
                        }
                        let data_text = crate::text::string_of(&data);
                        match extract_delta_content(data_text.as_str()) {
                            Some(delta) => {
                                proof {
                                    lemma_string_seq_views_push(deltas@, delta);
                                }
                                deltas.push(delta);
                            },
                            None => {},
                        }
                    },
                }
            },
        }
    }
}

/// The HTTP client of a provider protocol, from `reqwest`.
#[verifier::external_type_specification]
#[verifier::external_body]
pub struct ExReqwestClient(reqwest::Client);

/// Builds an HTTP client with a five second connect timeout, with
/// `reqwest::ClientBuilder::build`, over rustls with the bundled web PKI
/// roots. Nothing is claimed of the client. With this configuration (no
/// extra certificates, identity, revocation lists or version limits) the
/// builder has no error path, so the `expect` cannot fire.
#[verifier::external_body]
pub(crate) fn build_http_client() -> reqwest::Client {
    reqwest::Client::builder()
        .connect_timeout(std::time::Duration::from_secs(5))
        .build()
        .expect("HTTP client should build")
}

/// The base URL of a provider, trimmed and without trailing slashes.
pub open spec fn trimmed_base(base_url: Seq<char>) -> Seq<char> {
    trim_end_char(trim(base_url), '/')
}

/// `base` trimmed, with `suffix` appended; refused where the base is blank.
pub fn join_endpoint(base_url: &str, suffix: &str) -> (r: Result<String, AiClientError>)
    ensures
        match r {
            Ok(e) => trimmed_base(base_url@).len() > 0 && e@ == trimmed_base(base_url@) + suffix@,
            Err(e) => trimmed_base(base_url@).len() == 0 && e == AiClientError::MissingBaseUrl,
        },
{
    let trimmed = crate::text::trim_str(base_url);
    let mut base = crate::text::trim_end_matches_char(&trimmed, '/');
    if base.len() == 0 {
        return Err(AiClientError::MissingBaseUrl);
    }
    crate::text::push_str(&mut base, suffix);
    Ok(crate::text::string_of(&base))
}

/// The longest header name the HTTP client takes, in bytes.
pub const MAX_HEADER_NAME_LEN: usize = 65535;

/// A character allowed in a header name: an HTTP token character (letters
/// of either case, digits and ``!#$%&'*+-.^_`|~``).
pub open spec fn is_header_name_char(c: char) -> bool {
    ||| ('a' <= c && c <= 'z')
    ||| ('A' <= c && c <= 'Z')
    ||| ('0' <= c && c <= '9')
    ||| c == '!' || c == '#' || c == '$' || c == '%' || c == '&' || c == '\''
    ||| c == '*' || c == '+' || c == '-' || c == '.' || c == '^' || c == '_'
    ||| c == '`' || c == '|' || c == '~'
}

/// What `reqwest::header::HeaderName::from_bytes` reports of a name: `None`
/// where it is 1 to 65535 token characters (each one byte), else the text of
/// its error, which is always the same.
pub open spec fn spec_header_name_error(name: Seq<char>) -> Option<Seq<char>> {
    if 0 < name.len() <= MAX_HEADER_NAME_LEN && forall|i: int|
        0 <= i < name.len() ==> is_header_name_char(#[trigger] name[i]) {
        None
    } else {
        Some("invalid HTTP header name"@)
    }
}

/// A character allowed in a header value: a tab, or any character from the
/// space on but DEL (every character beyond ASCII is encoded in bytes from
/// 128 on, which are allowed).
pub open spec fn is_header_value_char(c: char) -> bool {
    c == '\t' || (c as u32 >= 32 && c as u32 != 127)
}

/// What `reqwest::header::HeaderValue::from_str` reports of a value: `None`
/// where each character is allowed, else the text of its error, which is
/// always the same.
pub open spec fn spec_header_value_error(value: Seq<char>) -> Option<Seq<char>> {
    if forall|i: int| 0 <= i < value.len() ==> is_header_value_char(#[trigger] value[i]) {
        None
    } else {
        Some("failed to parse header value"@)
    }
}

/// Checks a header name with `reqwest::header::HeaderName::from_bytes`.
/// Claimed: the outcome and the error text are those of
/// `spec_header_name_error`, as `parse_hdr` and its character table decide.
#[verifier::external_body]
fn header_name_error(name: &str) -> (r: Option<String>)
    ensures
        opt_view(r) == spec_header_name_error(name@),
{
    match reqwest::header::HeaderName::from_bytes(name.as_bytes()) {
        Ok(_) => None,
        Err(err) => Some(err.to_string()),
    }
}

/// Checks a header value with `reqwest::header::HeaderValue::from_str`.
/// Claimed: the outcome and the error text are those of
/// `spec_header_value_error`, as its byte check decides.
#[verifier::external_body]
pub(crate) fn header_value_error(value: &str) -> (r: Option<String>)
    ensures
        opt_view(r) == spec_header_value_error(value@),
{
    match reqwest::header::HeaderValue::from_str(value) {
        Ok(_) => None,
        Err(err) => Some(err.to_string()),
    }
}

/// A header that the HTTP client accepts.
pub open spec fn header_ok(h: (String, String)) -> bool {
    spec_header_name_error(h.0@) is None && spec_header_value_error(h.1@) is None
}

/// `e` is the error the header `h` is refused with.
pub open spec fn is_header_error(e: AiClientError, h: (String, String)) -> bool {
    match spec_header_name_error(h.0@) {
        Some(m) => e matches AiClientError::InvalidHeaderName { name, message } && name@ == h.0@
            && message@ == m,
        None => match spec_header_value_error(h.1@) {
            Some(m) => e matches AiClientError::InvalidHeaderValue { name, message } && name@ == h.0@
                && message@ == m,
            None => false,
        },
    }
}

/// `e` is the error of the first header of `hs` that is refused.
pub open spec fn first_header_error(e: AiClientError, hs: Seq<(String, String)>) -> bool {
    exists|i: int|
        0 <= i < hs.len() && (forall|k: int| 0 <= k < i ==> header_ok(#[trigger] hs[k]))
            && is_header_error(e, #[trigger] hs[i])
}

/// Checks one header: the name first, then the value.
fn check_header(name: &str, value: &str) -> (r: Result<(), AiClientError>)
    ensures
        match r {
            Ok(()) => spec_header_name_error(name@) is None && spec_header_value_error(value@) is None,
            Err(e) => match spec_header_name_error(name@) {
                Some(m) => e matches AiClientError::InvalidHeaderName { name: n, message }
                    && n@ == name@ && message@ == m,
                None => spec_header_value_error(value@) matches Some(m) && (
                e matches AiClientError::InvalidHeaderValue { name: n, message } && n@ == name@
                    && message@ == m),
            },
        },
{
    match header_name_error(name) {
        Some(message) => {
            return Err(AiClientError::InvalidHeaderName { name: crate::text::owned(name), message });
        },
        None => {},
    }
    match header_value_error(value) {
        Some(message) => Err(AiClientError::InvalidHeaderValue { name: crate::text::owned(name), message }),
        None => Ok(()),
    }
}

/// A request to a provider, ready to be sent: the URL, the headers to set
/// in order, and the bearer token where the protocol uses one.
pub struct ProviderHttpRequest {
    pub url: String,
    pub headers: Vec<(String, String)>,
    pub bearer_token: Option<String>,
}

/// `items`' string members named `key`, in order, skipping items without
/// one.
pub open spec fn string_fields(items: Seq<JsonValue>, key: Seq<char>) -> Seq<Seq<char>>
    decreases items.len(),
{
    if items.len() == 0 {
        seq![]
    } else {
        let rest = string_fields(items.drop_last(), key);
        match as_str(get_key(Some(items.last()), key)) {
            Some(s) => rest.push(s),
            None => rest,
        }
    }
}

/// A model list reply: the string `field` of each item of the array
/// `list_key`, or the text of the request error.
pub open spec fn spec_model_list(body: Seq<char>, list_key: Seq<char>, field: Seq<char>) -> Result<
    Seq<Seq<char>>,
    Seq<char>,
> {
    match spec_json_from_str(body) {
        Err(m) => Err("invalid model list JSON: "@ + m),
        Ok(v) => match as_array(get_key(Some(v), list_key)) {
            None => Err("model list response missing "@ + list_key + " array"@),
            Some(items) => Ok(string_fields(items, field)),
        },
    }
}

/// Reads a model list reply (see `spec_model_list`).
pub fn model_list(body: &str, list_key: &str, field: &str) -> (r: Result<Vec<String>, AiClientError>)
    ensures
        match spec_model_list(body@, list_key@, field@) {
            Ok(ids) => r matches Ok(v) && string_seq_views(v@) == ids,
            Err(m) => r matches Err(AiClientError::Request(x)) && x@ == m,
        },
{
    let value = match crate::json::json_from_str(body) {
        Ok(v) => v,
        Err(err) => {
            let mut message = crate::text::chars_of("invalid model list JSON: ");
            crate::text::push_str(&mut message, err.as_str());
            return Err(AiClientError::Request(crate::text::string_of(&message)));
        },
    };
    let list = match crate::json::member(&value, list_key) {
        Some(JsonValue::Array(items)) => items,
        _ => {
            let mut message = crate::text::chars_of("model list response missing ");
            crate::text::push_str(&mut message, list_key);
            crate::text::push_str(&mut message, " array");
            return Err(AiClientError::Request(crate::text::string_of(&message)));
        },
    };
    let mut ids: Vec<String> = Vec::new();
    let mut i: usize = 0;
    assert(list@.subrange(0, 0) =~= Seq::<JsonValue>::empty());
    while i < list.len()
        invariant
            i <= list@.len(),
            string_seq_views(ids@) == string_fields(list@.subrange(0, i as int), field@),
        decreases list.len() - i,
    {
        assert(list@.subrange(0, i + 1).drop_last() =~= list@.subrange(0, i as int));
        assert(list@.subrange(0, i + 1).last() == list@[i as int]);
        match crate::json::member(&list[i], field) {
            Some(x) => match crate::json::string_value(x) {
                Some(id) => {
                    proof {
                        lemma_string_seq_views_push(ids@, id);
                    }
                    ids.push(id);
                },
                None => {},
            },
            None => {},
        }
        i = i + 1;
    }
    assert(list@.subrange(0, list@.len() as int) =~= list@);
    Ok(ids)
}

/// The provider's own headers, each checked; refused at the first header
/// the HTTP client would not accept.
pub fn validated_headers(headers: &Vec<(String, String)>) -> (r: Result<
    Vec<(String, String)>,
    AiClientError,
>)
    ensures
        match r {
            Ok(v) => header_views(v@) == header_views(headers@) && forall|i: int|
                0 <= i < headers@.len() ==> header_ok(#[trigger] headers@[i]),
            Err(e) => first_header_error(e, headers@),
        },
{
    let mut i: usize = 0;
    while i < headers.len()
        invariant
            i <= headers@.len(),
            forall|k: int| 0 <= k < i ==> header_ok(#[trigger] headers@[k]),
        decreases headers.len() - i,
    {
        match check_header(headers[i].0.as_str(), headers[i].1.as_str()) {
            Err(e) => {
                assert(is_header_error(e, headers@[i as int]));
                return Err(e);
            },
            Ok(()) => {},
        }
        i = i + 1;
    }
    Ok(crate::config::ipc::copy_headers(headers))
}

/// A chat request needs a base URL, a model and a key, checked in this
/// order.
pub open spec fn spec_validate_provider(provider: AiProviderConfig, api_key: Seq<char>) -> Result<
    (),
    AiClientError,
> {
    if trim(provider.base_url@).len() == 0 {
        Err(AiClientError::MissingBaseUrl)
    } else if trim(provider.model@).len() == 0 {
        Err(AiClientError::MissingModel)
    } else if trim(api_key).len() == 0 {
        Err(AiClientError::MissingApiKey)
    } else {
        Ok(())
    }
}

/// The OpenAI-compatible protocol: chat completions and the model list
/// under the provider's base URL, authorised with a bearer token.
pub struct OpenAiCompatibleClient {
    http: reqwest::Client,
}

impl OpenAiCompatibleClient {
    pub fn new() -> Self {
        OpenAiCompatibleClient { http: build_http_client() }
    }

    pub fn endpoint(base_url: &str) -> (r: Result<String, AiClientError>)
        ensures
            match r {
                Ok(e) => trimmed_base(base_url@).len() > 0 && e@ == trimmed_base(base_url@)
                    + "/chat/completions"@,
                Err(e) => trimmed_base(base_url@).len() == 0 && e == AiClientError::MissingBaseUrl,
            },
    {
        join_endpoint(base_url, "/chat/completions")
    }

    pub fn models_endpoint(base_url: &str) -> (r: Result<String, AiClientError>)
        ensures
            match r {
                Ok(e) => trimmed_base(base_url@).len() > 0 && e@ == trimmed_base(base_url@)
                    + "/models"@,
                Err(e) => trimmed_base(base_url@).len() == 0 && e == AiClientError::MissingBaseUrl,
            },
    {
        join_endpoint(base_url, "/models")
    }

    /// The ids of the `data` array of a model list reply.
    pub fn parse_model_ids(body: &str) -> (r: Result<Vec<String>, AiClientError>)
        ensures
            match spec_model_list(body@, "data"@, "id"@) {
                Ok(ids) => r matches Ok(v) && string_seq_views(v@) == ids,
                Err(m) => r matches Err(AiClientError::Request(x)) && x@ == m,
            },
    {
        model_list(body, "data", "id")
    }

    /// A chat request needs a base URL, a model and a key, checked in this
    /// order.
    pub fn validate_provider(provider: &AiProviderConfig, api_key: &str) -> (r: Result<
        (),
        AiClientError,
    >)
        ensures
            r == spec_validate_provider(*provider, api_key@),
    {
        if crate::text::trim_str(provider.base_url.as_str()).len() == 0 {
            return Err(AiClientError::MissingBaseUrl);
        }
        if crate::text::trim_str(provider.model.as_str()).len() == 0 {
            return Err(AiClientError::MissingModel);
        }
        if crate::text::trim_str(api_key).len() == 0 {
            return Err(AiClientError::MissingApiKey);
        }
        Ok(())
    }

    /// The provider's headers, each checked (see `validated_headers`).
    pub fn validated_provider_headers(provider: &AiProviderConfig) -> (r: Result<
        Vec<(String, String)>,
        AiClientError,
    >)
        ensures
            match r {
                Ok(v) => header_views(v@) == header_views(provider.headers@) && forall|i: int|
                    0 <= i < provider.headers@.len() ==> header_ok(#[trigger] provider.headers@[i]),
                Err(e) => first_header_error(e, provider.headers@),
            },
    {
        validated_headers(&provider.headers)
    }

    /// The HTTP client this protocol sends its requests with.
    pub closed spec fn client(&self) -> reqwest::Client {
        self.http
    }

    /// The client the protocol holds (see `client`), lent out as it is.
    pub fn http_client(&self) -> (r: &reqwest::Client)
        ensures
            *r == self.client(),
    {
        &self.http
    }

    /// The model list request: base URL and key are required, then the
    /// endpoint and the headers; the key goes as a bearer token.
    pub fn models_request(provider: &AiProviderConfig, api_key: &str) -> (r: Result<
        ProviderHttpRequest,
        AiClientError,
    >)
        ensures
            trim(provider.base_url@).len() == 0 ==> r == Err::<ProviderHttpRequest, AiClientError>(
                AiClientError::MissingBaseUrl,
            ),
            trim(provider.base_url@).len() > 0 && trim(api_key@).len() == 0 ==> r == Err::<
                ProviderHttpRequest,
                AiClientError,
            >(AiClientError::MissingApiKey),
            r matches Ok(req) ==> req.url@ == trimmed_base(provider.base_url@) + "/models"@
                && header_views(req.headers@) == header_views(provider.headers@)
                && (req.bearer_token matches Some(t) && t@ == api_key@),
            r matches Err(e) ==> e == AiClientError::MissingBaseUrl || e
                == AiClientError::MissingApiKey || first_header_error(e, provider.headers@),
    {
        if crate::text::trim_str(provider.base_url.as_str()).len() == 0 {
            return Err(AiClientError::MissingBaseUrl);
        }
        if crate::text::trim_str(api_key).len() == 0 {
            return Err(AiClientError::MissingApiKey);
        }
        let url = match Self::models_endpoint(provider.base_url.as_str()) {
            Ok(u) => u,
            Err(e) => return Err(e),
        };
        let headers = match Self::validated_provider_headers(provider) {
            Ok(h) => h,
            Err(e) => return Err(e),
        };
        Ok(ProviderHttpRequest { url, headers, bearer_token: Some(crate::text::owned(api_key)) })
    }

    /// The chat request: the provider is validated, then the endpoint and
    /// the headers are made; the key goes as a bearer token.
    pub fn chat_request(provider: &AiProviderConfig, api_key: &str) -> (r: Result<
        ProviderHttpRequest,
        AiClientError,
    >)
        ensures
            spec_validate_provider(*provider, api_key@) matches Err(e) ==> r == Err::<
                ProviderHttpRequest,
                AiClientError,
            >(e),
            r matches Ok(req) ==> req.url@ == trimmed_base(provider.base_url@) + "/chat/completions"@
                && header_views(req.headers@) == header_views(provider.headers@)
                && (req.bearer_token matches Some(t) && t@ == api_key@),
    {
        match Self::validate_provider(provider, api_key) {
            Err(e) => return Err(e),
            Ok(()) => {},
        }
        let url = match Self::endpoint(provider.base_url.as_str()) {
            Ok(u) => u,
            Err(e) => return Err(e),
        };
        let headers = match Self::validated_provider_headers(provider) {
            Ok(h) => h,
            Err(e) => return Err(e),
        };
        Ok(ProviderHttpRequest { url, headers, bearer_token: Some(crate::text::owned(api_key)) })
    }
}

impl Default for OpenAiCompatibleClient {
    fn default() -> Self {
        Self::new()
    }
}

} // verus!
