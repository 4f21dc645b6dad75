use delta_core::provider::{
    anthropic_usage, chat_completions_url, map_stop_reason, openai_chat_usage, parse_protocol,
    versioned_endpoint, ProviderProtocol,
};

#[test]
fn versioned_endpoint_never_duplicates_v1() {
    assert_eq!(
        versioned_endpoint("https://api.example.test/v1", "responses"),
        "https://api.example.test/v1/responses"
    );
    assert_eq!(
        versioned_endpoint("https://api.example.test", "messages"),
        "https://api.example.test/v1/messages"
    );
}

#[test]
fn versioned_endpoint_strips_trailing_slashes() {
    assert_eq!(
        versioned_endpoint("https://api.example.test/v1//", "responses"),
        "https://api.example.test/v1/responses"
    );
    assert_eq!(
        versioned_endpoint("https://api.anthropic.com/", "messages"),
        "https://api.anthropic.com/v1/messages"
    );
}

#[test]
fn chat_completions_url_appends_path() {
    assert_eq!(
        chat_completions_url("https://api.openai.com/v1/"),
        "https://api.openai.com/v1/chat/completions"
    );
}

#[test]
fn stop_reasons_map_to_finish_reasons() {
    assert_eq!(map_stop_reason("end_turn"), "stop");
    assert_eq!(map_stop_reason("tool_use"), "tool_calls");
    assert_eq!(map_stop_reason("max_tokens"), "length");
    assert_eq!(map_stop_reason("stop_sequence"), "stop");
    assert_eq!(map_stop_reason("refusal"), "refusal");
}

#[test]
fn unknown_protocol_is_refused() {
    assert_eq!(parse_protocol("anthropic"), Ok(ProviderProtocol::Anthropic));
    assert_eq!(parse_protocol("openai_chat"), Ok(ProviderProtocol::OpenAiChat));
    assert_eq!(
        parse_protocol("openai_responses"),
        Ok(ProviderProtocol::OpenAiResponses)
    );
    assert_eq!(
        parse_protocol("gemini"),
        Err("unknown protocol: gemini (supports openai_chat, anthropic, openai_responses)".to_string())
    );
}

#[test]
fn usage_subtracts_cached_prompt_tokens() {
    let usage = openai_chat_usage(Some(100), Some(20), Some(30));
    assert_eq!((usage.input, usage.output, usage.cache_read, usage.cache_write), (70, 20, 30, 0));
    let missing = openai_chat_usage(None, None, None);
    assert_eq!((missing.input, missing.output, missing.cache_read), (0, 0, 0));
    let anthropic = anthropic_usage(Some(5), Some(6), None, Some(2));
    assert_eq!(
        (anthropic.input, anthropic.output, anthropic.cache_read, anthropic.cache_write),
        (5, 6, 0, 2)
    );
}
