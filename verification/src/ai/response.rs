//! What the library makes of a provider's error replies: the message the
//! provider sent, with every secret of the request taken out.
use vstd::prelude::*;

use crate::ai::openai_compatible::AiClientError;
use crate::ai::sse::{opt_view, string_seq_views};
use crate::config::{AiProviderConfig, AiProviderKind};
use crate::json::{as_str, get_key, spec_parse_json, JsonValue};
use crate::redact::{redact_all, redactable};
use crate::text::{collapse_whitespace, starts_with, take_chars, trim};

verus! {

/// The longest error detail that is passed on, in characters.
pub const MAX_PROVIDER_ERROR_DETAIL_LEN: usize = 500;

/// `value.pointer("/error/message").or_else(|| value.get("message"))`.
pub open spec fn error_message_value(v: Option<JsonValue>) -> Option<JsonValue> {
    match get_key(get_key(v, "error"@), "message"@) {
        Some(m) => Some(m),
        None => get_key(v, "message"@),
    }
}

/// The error message of a provider's JSON reply, its whitespace collapsed.
pub open spec fn spec_provider_error_message(body: Seq<char>) -> Option<Seq<char>> {
    match as_str(error_message_value(spec_parse_json(body))) {
        Some(m) => Some(collapse_whitespace(m)),
        None => None,
    }
}

/// The secrets of a list of headers: each value, trimmed, that is not empty.
pub open spec fn header_secrets(headers: Seq<(String, String)>) -> Seq<Seq<char>>
    decreases headers.len(),
{
    if headers.len() == 0 {
        seq![]
    } else {
        let t = trim(headers.last().1@);
        let before = header_secrets(headers.drop_last());
        if t.len() > 0 {
            before.push(t)
        } else {
            before
        }
    }
}

/// What must not leak from a request: the API key and every header value,
/// trimmed, those that are not empty.
pub open spec fn spec_redaction_secrets(api_key: Seq<char>, headers: Seq<(String, String)>) -> Seq<
    Seq<char>,
> {
    let key = trim(api_key);
    if key.len() > 0 {
        seq![key] + header_secrets(headers)
    } else {
        header_secrets(headers)
    }
}

/// The detail an OpenAI-compatible error reply is reported with: the
/// provider's message, redacted and trimmed, cut to its first 500
/// characters; `None` where there is no message or nothing is left of it.
pub open spec fn spec_provider_error_detail(body: Seq<char>, secrets: Seq<Seq<char>>) -> Option<
    Seq<char>,
> {
    match spec_provider_error_message(body) {
        None => None,
        Some(m) => {
            let t = trim(redact_all(m, secrets));
            if t.len() == 0 {
                None
            } else {
                Some(take_chars(t, MAX_PROVIDER_ERROR_DETAIL_LEN as nat))
            }
        },
    }
}

/// How `http::StatusCode` displays the status `code`: the number and its
/// reason phrase.
pub uninterp spec fn spec_status_text(code: u16) -> Seq<char>;

/// The message of an error reply of the Anthropic and Gemini protocols.
pub open spec fn spec_messages_error_text(code: u16, body: Seq<char>, secrets: Seq<Seq<char>>) -> Seq<
    char,
> {
    let message = match spec_provider_error_message(body) {
        Some(m) => m,
        None => "HTTP "@ + spec_status_text(code),
    };
    let redacted = redact_all(message, secrets);
    if starts_with(redacted, "HTTP "@) {
        redacted
    } else {
        "HTTP "@ + spec_status_text(code) + ": "@ + redacted
    }
}

/// The message of an error reply of the OpenAI-compatible protocol.
pub open spec fn spec_openai_error_text(code: u16, body: Seq<char>, secrets: Seq<Seq<char>>) -> Seq<
    char,
> {
    match spec_provider_error_detail(body, secrets) {
        Some(d) => "HTTP "@ + spec_status_text(code) + ": "@ + d,
        None => "HTTP "@ + spec_status_text(code),
    }
}

/// The message of an error reply, the provider's message where it sent one
/// (see `spec_provider_error_message`).
pub fn provider_error_message(body: &str) -> (r: Option<String>)
    ensures
        opt_view(r) == spec_provider_error_message(body@),
{
    let value = crate::json::parse_json(body);
    let found = match &value {
        None => None,
        Some(v) => {
            let nested = match crate::json::member(v, "error") {
                Some(e) => crate::json::member(e, "message"),
                None => None,
            };
            match nested {
                Some(m) => Some(m),
                None => crate::json::member(v, "message"),
            }
        },
    };
    match found {
        Some(m) => match crate::json::string_value(m) {
            Some(text) => {
                let chars = crate::text::chars_of(text.as_str());
                let collapsed = crate::text::collapse_whitespace_chars(&chars);
                Some(crate::text::string_of(&collapsed))
            },
            None => None,
        },
        None => None,
    }
}

/// The secrets of a request to `provider` made with `api_key`, in the
/// order they are redacted.
pub fn redaction_secrets(provider: &AiProviderConfig, api_key: &str) -> (r: Vec<String>)
    ensures
        string_seq_views(r@) == spec_redaction_secrets(api_key@, provider.headers@),
        forall|i: int| 0 <= i < r@.len() ==> (#[trigger] r@[i])@.len() > 0,
{
    let mut secrets: Vec<String> = Vec::new();
    let key = crate::text::trim_str(api_key);
    if key.len() > 0 {
        secrets.push(crate::text::string_of(&key));
    }
    let ghost start = string_seq_views(secrets@);
    assert(start + header_secrets(provider.headers@.subrange(0, 0)) =~= start);
    let mut i: usize = 0;
    while i < provider.headers.len()
        invariant
            i <= provider.headers@.len(),
            string_seq_views(secrets@) == start + header_secrets(
                provider.headers@.subrange(0, i as int),
            ),
            start == if trim(api_key@).len() > 0 {
                seq![trim(api_key@)]
            } else {
                seq![]
            },
            forall|k: int| 0 <= k < secrets@.len() ==> (#[trigger] secrets@[k])@.len() > 0,
        decreases provider.headers.len() - i,
    {
        let value = crate::text::trim_str(provider.headers[i].1.as_str());
        let ghost pre = provider.headers@.subrange(0, i as int);
        assert(provider.headers@.subrange(0, i + 1).drop_last() =~= pre);
        assert(provider.headers@.subrange(0, i + 1).last() == provider.headers@[i as int]);
        if value.len() > 0 {
            let secret = crate::text::string_of(&value);
            proof {
                crate::ai::sse::lemma_string_seq_views_push(secrets@, secret);
            }
            secrets.push(secret);
            assert(start + header_secrets(pre).push(value@) =~= (start + header_secrets(
                pre,
            )).push(value@));
        }
        i = i + 1;
    }
    assert(provider.headers@.subrange(0, provider.headers@.len() as int) =~= provider.headers@);
    assert(spec_redaction_secrets(api_key@, provider.headers@) =~= start + header_secrets(
        provider.headers@,
    ));
    secrets
}

/// `s` with each of `secrets` replaced by the marker.
fn redacted(s: &str, secrets: &Vec<String>) -> (r: Vec<char>)
    requires
        forall|i: int| 0 <= i < secrets@.len() ==> (#[trigger] secrets@[i])@.len() > 0,
    ensures
        r@ == redact_all(s@, string_seq_views(secrets@)),
{
    let chars = crate::text::chars_of(s);
    crate::redact::redact_secrets(&chars, secrets)
}

/// The first `n` characters of `s`.
fn take_first(s: &[char], n: usize) -> (r: Vec<char>)
    ensures
        r@ == take_chars(s@, n as nat),
{
    if s.len() <= n {
        crate::text::copy_chars(s)
    } else {
        crate::text::sub_chars(s, 0, n)
    }
}

/// The detail of an OpenAI-compatible error reply (see
/// `spec_provider_error_detail`).
pub fn provider_error_detail(body: &str, secrets: &Vec<String>) -> (r: Option<String>)
    requires
        forall|i: int| 0 <= i < secrets@.len() ==> (#[trigger] secrets@[i])@.len() > 0,
    ensures
        opt_view(r) == spec_provider_error_detail(body@, string_seq_views(secrets@)),
{
    let message = match provider_error_message(body) {
        Some(m) => m,
        None => return None,
    };
    let clean = redacted(message.as_str(), secrets);
    let trimmed = crate::text::trim_chars(&clean);
    if trimmed.len() == 0 {
        return None;
    }
    let cut = take_first(&trimmed, MAX_PROVIDER_ERROR_DETAIL_LEN);
    Some(crate::text::string_of(&cut))
}

/// Displays an HTTP status as `http::StatusCode` does ("401 Unauthorized").
/// Claimed: the text is a function of the code (`spec_status_text`);
/// `StatusCode::from_u16` accepts exactly the codes from 100 to 999.
#[verifier::external_body]
fn status_text(code: u16) -> (r: String)
    requires
        100 <= code < 1000,
    ensures
        r@ == spec_status_text(code),
{
    match reqwest::StatusCode::from_u16(code) {
        Ok(status) => status.to_string(),
        Err(err) => err.to_string(),
    }
}

/// `"HTTP "` and the displayed status.
fn http_status_prefix(code: u16) -> (r: Vec<char>)
    requires
        100 <= code < 1000,
    ensures
        r@ == "HTTP "@ + spec_status_text(code),
{
    let mut out = crate::text::chars_of("HTTP ");
    let status = status_text(code);
    crate::text::push_str(&mut out, status.as_str());
    out
}

/// The error an OpenAI-compatible provider's error reply becomes: the status,
/// and the redacted detail of the provider's message where there is one.
pub fn openai_response_error(
    code: u16,
    body: &str,
    provider: &AiProviderConfig,
    api_key: &str,
) -> (r: AiClientError)
    requires
        100 <= code < 1000,
    ensures
        r matches AiClientError::Request(m) && m@ == spec_openai_error_text(
            code,
            body@,
            spec_redaction_secrets(api_key@, provider.headers@),
        ),
{
    let secrets = redaction_secrets(provider, api_key);
    let detail = provider_error_detail(body, &secrets);
    let mut message = http_status_prefix(code);
    match detail {
        Some(d) => {
            crate::text::push_str(&mut message, ": ");
            crate::text::push_str(&mut message, d.as_str());
        },
        None => {},
    }
    AiClientError::Request(crate::text::string_of(&message))
}

/// The error an Anthropic or Gemini error reply becomes: the provider's
/// message (or the status), redacted, with the status in front unless the
/// message starts with `HTTP `.
pub fn messages_response_error(
    code: u16,
    body: &str,
    provider: &AiProviderConfig,
    api_key: &str,
) -> (r: AiClientError)
    requires
        100 <= code < 1000,
    ensures
        r matches AiClientError::Request(m) && m@ == spec_messages_error_text(
            code,
            body@,
            spec_redaction_secrets(api_key@, provider.headers@),
        ),
{
    let secrets = redaction_secrets(provider, api_key);
    let message = match provider_error_message(body) {
        Some(m) => m,
        None => crate::text::string_of(&http_status_prefix(code)),
    };
    let clean = redacted(message.as_str(), &secrets);
    let http = crate::text::chars_of("HTTP ");
    if crate::text::starts_with_chars(&clean, &http) {
        AiClientError::Request(crate::text::string_of(&clean))
    } else {
        let mut out = http_status_prefix(code);
        crate::text::push_str(&mut out, ": ");
        crate::text::push_all(&mut out, &clean);
        AiClientError::Request(crate::text::string_of(&out))
    }
}

/// A stream error with the request's secrets taken out of its message;
/// errors other than `Request` are returned as they are.
pub fn sanitize_stream_error(err: AiClientError, provider: &AiProviderConfig, api_key: &str) -> (r:
    AiClientError)
    ensures
        match err {
            AiClientError::Request(m) => r matches AiClientError::Request(m2) && m2@ == redact_all(
                m@,
                spec_redaction_secrets(api_key@, provider.headers@),
            ),
            _ => r == err,
        },
{
    match err {
        AiClientError::Request(message) => {
            let secrets = redaction_secrets(provider, api_key);
            let clean = redacted(message.as_str(), &secrets);
            AiClientError::Request(crate::text::string_of(&clean))
        },
        other => other,
    }
}

proof fn lemma_trim_is_piece(s: Seq<char>)
    ensures
        exists|a: int, b: int| 0 <= a <= b <= s.len() && trim(s) == s.subrange(a, b),
{
    lemma_trim_start_piece(s);
    let a = choose|a: int| 0 <= a <= s.len() && crate::text::trim_start(s) == s.subrange(a, s.len() as int);
    let t = s.subrange(a, s.len() as int);
    lemma_trim_end_piece(t);
    let b = choose|b: int| 0 <= b <= t.len() && crate::text::trim_end(t) == t.subrange(0, b);
    assert(t.subrange(0, b) =~= s.subrange(a, a + b));
}

proof fn lemma_trim_start_piece(s: Seq<char>)
    ensures
        exists|a: int| 0 <= a <= s.len() && crate::text::trim_start(s) == s.subrange(a, s.len() as int),
    decreases s.len(),
{
    if s.len() > 0 && crate::text::spec_is_whitespace(s[0]) {
        lemma_trim_start_piece(s.drop_first());
        let a = choose|a: int| 0 <= a <= s.drop_first().len() && crate::text::trim_start(s.drop_first())
            == s.drop_first().subrange(a, s.drop_first().len() as int);
        assert(s.drop_first().subrange(a, s.drop_first().len() as int) =~= s.subrange(a + 1, s.len() as int));
    } else {
        assert(s.subrange(0, s.len() as int) =~= s);
    }
}

proof fn lemma_trim_end_piece(s: Seq<char>)
    ensures
        exists|b: int| 0 <= b <= s.len() && crate::text::trim_end(s) == s.subrange(0, b),
    decreases s.len(),
{
    if s.len() > 0 && crate::text::spec_is_whitespace(s.last()) {
        lemma_trim_end_piece(s.drop_last());
        let b = choose|b: int| 0 <= b <= s.drop_last().len() && crate::text::trim_end(s.drop_last())
            == s.drop_last().subrange(0, b);
        assert(s.drop_last().subrange(0, b) =~= s.subrange(0, b));
    } else {
        assert(s.subrange(0, s.len() as int) =~= s);
    }
}

/// The detail an error reply is reported with holds none of the request's
/// secrets, for secrets that the marker cannot help to spell.
pub proof fn lemma_error_detail_holds_no_secret(body: Seq<char>, secrets: Seq<Seq<char>>)
    requires
        forall|i: int| 0 <= i < secrets.len() ==> redactable(#[trigger] secrets[i]),
    ensures
        spec_provider_error_detail(body, secrets) matches Some(d) ==> forall|i: int|
            0 <= i < secrets.len() ==> !crate::text::contains(d, #[trigger] secrets[i]),
{
    if let Some(m) = spec_provider_error_message(body) {
        let r = redact_all(m, secrets);
        crate::redact::lemma_redact_all_removes_secrets(m, secrets);
        lemma_trim_is_piece(r);
        let (a, b) = choose|a: int, b: int| 0 <= a <= b <= r.len() && trim(r) == r.subrange(a, b);
        let t = trim(r);
        assert forall|i: int| 0 <= i < secrets.len() implies !crate::text::contains(
            take_chars(t, MAX_PROVIDER_ERROR_DETAIL_LEN as nat),
            #[trigger] secrets[i],
        ) by {
            crate::redact::lemma_absent_in_subrange(r, secrets[i], a, b);
            if t.len() > MAX_PROVIDER_ERROR_DETAIL_LEN {
                crate::redact::lemma_absent_in_subrange(t, secrets[i], 0, MAX_PROVIDER_ERROR_DETAIL_LEN as int);
            }
        }
    }
}

/// The error a provider's error reply becomes, by the provider's protocol.
pub fn error_reply(code: u16, body: &str, provider: &AiProviderConfig, api_key: &str) -> (r:
    AiClientError)
    requires
        100 <= code < 1000,
    ensures
        r matches AiClientError::Request(m) && m@ == match provider.provider_kind {
            AiProviderKind::OpenAiCompatible => spec_openai_error_text(
                code,
                body@,
                spec_redaction_secrets(api_key@, provider.headers@),
            ),
            _ => spec_messages_error_text(
                code,
                body@,
                spec_redaction_secrets(api_key@, provider.headers@),
            ),
        },
{
    match provider.provider_kind {
        AiProviderKind::OpenAiCompatible => openai_response_error(code, body, provider, api_key),
        _ => messages_response_error(code, body, provider, api_key),
    }
}

/// A status from 200 to 299.
pub open spec fn is_success(code: u16) -> bool {
    200 <= code <= 299
}

/// The outcome of a model list request: the ids of a successful reply, by
/// the provider's protocol, else the error its reply becomes.
pub fn models_reply(code: u16, body: &str, provider: &AiProviderConfig, api_key: &str) -> (r:
    Result<Vec<String>, AiClientError>)
    requires
        100 <= code < 1000,
    ensures
        !is_success(code) ==> (r matches Err(AiClientError::Request(m)) && m@ == match provider.provider_kind {
            AiProviderKind::OpenAiCompatible => spec_openai_error_text(
                code,
                body@,
                spec_redaction_secrets(api_key@, provider.headers@),
            ),
            _ => spec_messages_error_text(
                code,
                body@,
                spec_redaction_secrets(api_key@, provider.headers@),
            ),
        }),
        is_success(code) ==> match provider.provider_kind {
            AiProviderKind::Gemini => match crate::ai::openai_compatible::spec_model_list(
                body@,
                "models"@,
                "name"@,
            ) {
                Ok(ids) => r matches Ok(v) && string_seq_views(v@) == ids.map_values(
                    |s: Seq<char>| crate::ai::gemini::strip_models_prefix(s),
                ),
                Err(m) => r matches Err(AiClientError::Request(x)) && x@ == m,
            },
            _ => match crate::ai::openai_compatible::spec_model_list(body@, "data"@, "id"@) {
                Ok(ids) => r matches Ok(v) && string_seq_views(v@) == ids,
                Err(m) => r matches Err(AiClientError::Request(x)) && x@ == m,
            },
        },
{
    if code < 200 || code > 299 {
        return Err(error_reply(code, body, provider, api_key));
    }
    match provider.provider_kind {
        AiProviderKind::OpenAiCompatible => crate::ai::openai_compatible::OpenAiCompatibleClient::parse_model_ids(
            body,
        ),
        AiProviderKind::Anthropic => crate::ai::anthropic::AnthropicClient::parse_model_ids(body),
        AiProviderKind::Gemini => crate::ai::gemini::GeminiClient::parse_model_ids(body),
    }
}

} // verus!
