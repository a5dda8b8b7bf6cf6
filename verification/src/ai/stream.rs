//! What each chunk of a streamed answer leads to, per provider protocol:
//! the deltas it carries are handed on, the protocol's end marker ends the
//! stream (Gemini streams have none and run to the end of the body), a
//! reading error ends it, and an Anthropic error has the request's secrets
//! taken out. At the end of the body an OpenAI-compatible stream reads the
//! line still held back.
use vstd::prelude::*;

use crate::ai::openai_compatible::{AiClientError, SseParseResult};
use crate::ai::response::{sanitize_stream_error, spec_redaction_secrets};
use crate::config::{AiProviderConfig, AiProviderKind};
use crate::redact::redact_all;

verus! {

/// What the streaming loop does after one chunk.
#[derive(Debug, Clone, PartialEq)]
pub enum StreamStep {
    /// Hand these deltas on and read the next chunk.
    Continue(Vec<String>),
    /// Hand these deltas on; the answer is complete.
    Finish(Vec<String>),
    /// The stream failed with this error.
    Fail(AiClientError),
}

/// The protocol ends its stream with a marker of its own.
pub open spec fn stops_on_done(kind: AiProviderKind) -> bool {
    kind != AiProviderKind::Gemini
}

/// The step after one chunk was read (`parsed` is the protocol reader's
/// result for it).
pub fn stream_chunk_step(
    kind: AiProviderKind,
    parsed: Result<SseParseResult, AiClientError>,
    provider: &AiProviderConfig,
    api_key: &str,
) -> (r: StreamStep)
    ensures
        match parsed {
            Ok(p) => if p.done && stops_on_done(kind) {
                r == StreamStep::Finish(p.deltas)
            } else {
                r == StreamStep::Continue(p.deltas)
            },
            Err(e) => if kind == AiProviderKind::Anthropic {
                match e {
                    AiClientError::Request(m) => r matches StreamStep::Fail(AiClientError::Request(m2))
                        && m2@ == redact_all(m@, spec_redaction_secrets(api_key@, provider.headers@)),
                    _ => r == StreamStep::Fail(e),
                }
            } else {
                r == StreamStep::Fail(e)
            },
        },
{
    match parsed {
        Ok(p) => {
            let stops = match kind {
                AiProviderKind::Gemini => false,
                _ => true,
            };
            if p.done && stops {
                StreamStep::Finish(p.deltas)
            } else {
                StreamStep::Continue(p.deltas)
            }
        },
        Err(e) => match kind {
            AiProviderKind::Anthropic => StreamStep::Fail(sanitize_stream_error(e, provider, api_key)),
            _ => StreamStep::Fail(e),
        },
    }
}

/// At the end of the body an OpenAI-compatible stream still reads the
/// bytes held back, as a last line.
pub fn reads_rest_at_end(kind: AiProviderKind, held_back: usize) -> (r: bool)
    ensures
        r == (kind == AiProviderKind::OpenAiCompatible && held_back > 0),
{
    match kind {
        AiProviderKind::OpenAiCompatible => held_back > 0,
        _ => false,
    }
}

} // verus!
