//! Provider wire-protocol decisions: endpoints, protocol selection and the
//! normalization of provider replies.

pub mod bodies;
pub mod replies;
pub mod streams;
pub mod support;
pub mod health;

use vstd::prelude::*;

use crate::text::{concat2, ends_with, owned, seq_ends_with, seq_trim_end, str_eq, trim_end_matches};

verus! {

/// `base_url` without trailing slashes, then `/v1/` unless it already ends in
/// `/v1`, then `endpoint`.
pub open spec fn versioned_endpoint_of(base_url: Seq<char>, endpoint: Seq<char>) -> Seq<char> {
    let base = seq_trim_end(base_url, '/');
    if seq_ends_with(base, "/v1"@) {
        base + "/"@ + endpoint
    } else {
        base + "/v1/"@ + endpoint
    }
}

/// The endpoint URL for APIs that version their path with `/v1`; never
/// duplicates an existing `/v1` suffix.
pub fn versioned_endpoint(base_url: &str, endpoint: &str) -> (url: String)
    ensures
        url@ == versioned_endpoint_of(base_url@, endpoint@),
{
    let base = trim_end_matches(base_url, '/');
    let mut url = owned(base.as_str());
    if ends_with(base.as_str(), "/v1") {
        url.append("/");
    } else {
        url.append("/v1/");
    }
    url.append(endpoint);
    url
}

/// The Chat Completions URL: `base_url` without trailing slashes, then
/// `/chat/completions`.
pub fn chat_completions_url(base_url: &str) -> (url: String)
    ensures
        url@ == seq_trim_end(base_url@, '/') + "/chat/completions"@,
{
    let base = trim_end_matches(base_url, '/');
    concat2(base.as_str(), "/chat/completions")
}

/// Anthropic stop reasons in the product's finish-reason vocabulary.
pub open spec fn stop_reason_of(reason: Seq<char>) -> Seq<char> {
    if reason == "end_turn"@ {
        "stop"@
    } else if reason == "tool_use"@ {
        "tool_calls"@
    } else if reason == "max_tokens"@ {
        "length"@
    } else if reason == "stop_sequence"@ {
        "stop"@
    } else {
        reason
    }
}

pub fn map_stop_reason(reason: &str) -> (r: String)
    ensures
        r@ == stop_reason_of(reason@),
{
    if str_eq(reason, "end_turn") {
        owned("stop")
    } else if str_eq(reason, "tool_use") {
        owned("tool_calls")
    } else if str_eq(reason, "max_tokens") {
        owned("length")
    } else if str_eq(reason, "stop_sequence") {
        owned("stop")
    } else {
        owned(reason)
    }
}

/// The provider wire protocols the transport speaks.
#[derive(Debug, Clone, Copy, PartialEq, Eq, Structural)]
pub enum ProviderProtocol {
    OpenAiChat,
    Anthropic,
    OpenAiResponses,
}

pub open spec fn protocol_of(name: Seq<char>) -> Option<ProviderProtocol> {
    if name == "openai_chat"@ {
        Some(ProviderProtocol::OpenAiChat)
    } else if name == "anthropic"@ {
        Some(ProviderProtocol::Anthropic)
    } else if name == "openai_responses"@ {
        Some(ProviderProtocol::OpenAiResponses)
    } else {
        None
    }
}

/// Select the protocol a request names; unknown names are refused.
pub fn parse_protocol(name: &str) -> (r: Result<ProviderProtocol, String>)
    ensures
        r is Ok <==> protocol_of(name@) is Some,
        r matches Ok(p) ==> protocol_of(name@) == Some(p),
        r matches Err(e) ==> e@ == "unknown protocol: "@ + name@
            + " (supports openai_chat, anthropic, openai_responses)"@,
{
    if str_eq(name, "openai_chat") {
        Ok(ProviderProtocol::OpenAiChat)
    } else if str_eq(name, "anthropic") {
        Ok(ProviderProtocol::Anthropic)
    } else if str_eq(name, "openai_responses") {
        Ok(ProviderProtocol::OpenAiResponses)
    } else {
        let mut e = owned("unknown protocol: ");
        e.append(name);
        e.append(" (supports openai_chat, anthropic, openai_responses)");
        Err(e)
    }
}

/// The headers of a Messages API request: the key, the API version the
/// bodies are written for, and the media type.
pub fn anthropic_headers(api_key: &str) -> (r: Vec<(&'static str, String)>)
    ensures
        r@.len() == 3,
        r@[0].0@ == "x-api-key"@ && r@[0].1@ == api_key@,
        r@[1].0@ == "anthropic-version"@ && r@[1].1@ == "2023-06-01"@,
        r@[2].0@ == "Content-Type"@ && r@[2].1@ == "application/json"@,
{
    vec![
        ("x-api-key", owned(api_key)),
        ("anthropic-version", owned("2023-06-01")),
        ("Content-Type", owned("application/json")),
    ]
}

/// Normalized token usage of one provider reply.
#[derive(Debug, Clone, Copy, PartialEq, Eq, Structural)]
pub struct TokenUsage {
    pub input: i64,
    pub output: i64,
    pub cache_read: i64,
    pub cache_write: i64,
}

/// Chat Completions usage: cached prompt tokens are reported separately
/// from the uncached input. Missing counts are zero; the subtraction wraps
/// on overflow, as the release build of the transport does.
pub fn openai_chat_usage(prompt: Option<i64>, completion: Option<i64>, cached: Option<i64>) -> (u: TokenUsage)
    ensures
        u.input == (match prompt { Some(p) => p, None => 0i64 }).wrapping_sub(match cached { Some(c) => c, None => 0i64 }),
        u.output == (match completion { Some(c) => c, None => 0i64 }),
        u.cache_read == (match cached { Some(c) => c, None => 0i64 }),
        u.cache_write == 0,
{
    let p = match prompt { Some(p) => p, None => 0 };
    let c = match completion { Some(c) => c, None => 0 };
    let k = match cached { Some(k) => k, None => 0 };
    TokenUsage { input: p.wrapping_sub(k), output: c, cache_read: k, cache_write: 0 }
}

/// Anthropic usage: every count is reported as given; missing counts are zero.
pub fn anthropic_usage(input: Option<i64>, output: Option<i64>, cache_read: Option<i64>, cache_write: Option<i64>) -> (u: TokenUsage)
    ensures
        u.input == (match input { Some(v) => v, None => 0i64 }),
        u.output == (match output { Some(v) => v, None => 0i64 }),
        u.cache_read == (match cache_read { Some(v) => v, None => 0i64 }),
        u.cache_write == (match cache_write { Some(v) => v, None => 0i64 }),
{
    TokenUsage {
        input: match input { Some(v) => v, None => 0 },
        output: match output { Some(v) => v, None => 0 },
        cache_read: match cache_read { Some(v) => v, None => 0 },
        cache_write: match cache_write { Some(v) => v, None => 0 },
    }
}

} // verus!
