use delta_core::json::{Json, JsonNumber};
use delta_core::provider::bodies::{build_openai_chat, build_openai_responses, ProviderRequest};
use delta_core::provider::replies::{finish_reply, parse_openai_chat, parse_openai_responses};
use delta_core::provider::streams::{cancelled_reply, delta_frame, ChatStream, LineStep, StreamDelta};
use delta_core::provider::support::{capabilities_for, friendly_model_error, route, suggested_models};

fn convert(value: &serde_json::Value) -> Json {
    match value {
        serde_json::Value::Null => Json::Null,
        serde_json::Value::Bool(b) => Json::Bool(*b),
        serde_json::Value::Number(n) => {
            if let Some(u) = n.as_u64() {
                Json::Number(JsonNumber::PosInt(u))
            } else if let Some(i) = n.as_i64() {
                Json::Number(JsonNumber::NegInt(i))
            } else {
                Json::Number(JsonNumber::Float(n.to_string()))
            }
        },
        serde_json::Value::String(s) => Json::String(s.clone()),
        serde_json::Value::Array(items) => Json::Array(items.iter().map(convert).collect()),
        serde_json::Value::Object(map) => {
            Json::Object(map.iter().map(|(k, v)| (k.clone(), convert(v))).collect())
        },
    }
}

fn parse(text: &str) -> Json {
    let value: serde_json::Value = serde_json::from_str(text).expect("test JSON");
    convert(&value)
}

fn same(a: &Json, text: &str) -> bool {
    a.same(&parse(text))
}

fn request(protocol: &str) -> ProviderRequest {
    ProviderRequest {
        protocol: protocol.to_string(),
        model: "gpt-5.5".to_string(),
        messages: parse(r#"[{"role":"user","content":"hi"}]"#),
        tools: None,
        settings: None,
        api_key: "key".to_string(),
        base_url: "https://api.openai.com/v1".to_string(),
        timeout_secs: None,
    }
}

#[test]
fn chat_body_carries_model_messages_and_stream_options() {
    let body = build_openai_chat(&request("openai_chat"), true);
    assert!(same(
        &body,
        r#"{"messages":[{"content":"hi","role":"user"}],"model":"gpt-5.5","stream":true,"stream_options":{"include_usage":true}}"#
    ));
    let plain = build_openai_chat(&request("openai_chat"), false);
    assert!(same(&plain, r#"{"messages":[{"content":"hi","role":"user"}],"model":"gpt-5.5"}"#));
}

#[test]
fn chat_body_settings_override_fields() {
    let mut req = request("openai_chat");
    req.settings = Some(parse(r#"{"temperature":0.5,"model":"other"}"#));
    let body = build_openai_chat(&req, false);
    assert!(same(
        &body,
        r#"{"messages":[{"content":"hi","role":"user"}],"model":"other","temperature":0.5}"#
    ));
}

#[test]
fn responses_body_maps_tools_and_asks_for_reasoning() {
    let mut req = request("openai_responses");
    req.tools = Some(parse(
        r#"[{"type":"function","function":{"name":"read","description":"Read","parameters":{"type":"object"}}}]"#,
    ));
    let body = build_openai_responses(&req, false);
    assert!(same(
        &body,
        r#"{"include":["reasoning.encrypted_content"],"input":[{"content":"hi","role":"user"}],"model":"gpt-5.5","reasoning":{"summary":"auto"},"store":false,"tools":[{"description":"Read","name":"read","parameters":{"type":"object"},"strict":false,"type":"function"}]}"#
    ));
}

#[test]
fn chat_reply_is_normalized() {
    let resp = parse(
        r#"{"choices":[{"finish_reason":"tool_calls","message":{"content":"ok","tool_calls":[{"id":"c1","function":{"name":"read","arguments":"{\"path\":\"a\"}"}}]}}]}"#,
    );
    let draft = parse_openai_chat(&resp).expect("reply");
    assert_eq!(draft.text.as_deref(), Some("ok"));
    assert_eq!(draft.finish_reason.as_deref(), Some("tool_calls"));
    assert_eq!(draft.tool_calls.len(), 1);
    let reply = finish_reply(draft, vec![Some(parse(r#"{"path":"a"}"#))]);
    assert!(same(
        &reply,
        r#"{"extras":{},"finish_reason":"tool_calls","reasoning":null,"text":"ok","tool_calls":[{"arguments":{"path":"a"},"id":"c1","name":"read"}],"usage":null}"#
    ));
}

#[test]
fn chat_reply_without_choices_is_an_error() {
    assert_eq!(parse_openai_chat(&parse(r#"{}"#)).err().as_deref(), Some("missing choices"));
    assert_eq!(parse_openai_chat(&parse(r#"{"choices":[]}"#)).err().as_deref(), Some("empty choices"));
    assert_eq!(parse_openai_chat(&parse(r#"{"choices":[{}]}"#)).err().as_deref(), Some("missing message"));
}

#[test]
fn undecodable_chat_arguments_become_an_empty_object() {
    let resp = parse(
        r#"{"choices":[{"message":{"tool_calls":[{"id":"c1","function":{"name":"read","arguments":"{bad"}}]}}]}"#,
    );
    let draft = parse_openai_chat(&resp).expect("reply");
    let reply = finish_reply(draft, vec![None]);
    assert!(same(
        &reply,
        r#"{"extras":{},"finish_reason":null,"reasoning":null,"text":null,"tool_calls":[{"arguments":{},"id":"c1","name":"read"}],"usage":null}"#
    ));
}

#[test]
fn responses_reply_reads_message_text() {
    let resp = parse(
        r#"{"status":"completed","output":[{"type":"message","content":[{"type":"output_text","text":"hello"}]}]}"#,
    );
    let draft = parse_openai_responses(&resp).expect("reply");
    assert_eq!(draft.text.as_deref(), Some("hello"));
    assert_eq!(draft.tool_calls.len(), 0);
}

#[test]
fn chat_stream_assembles_text_and_stops_at_done() {
    let mut stream = ChatStream::new();
    assert!(matches!(stream.line(""), LineStep::Skip));
    assert!(matches!(stream.line(": keep-alive"), LineStep::Skip));
    let payload = match stream.line(r#"data: {"choices":[{"delta":{"content":"Hel"}}]}"#) {
        LineStep::Payload(p) => p,
        _ => panic!("payload expected"),
    };
    let deltas = stream.absorb(&parse(&payload));
    assert_eq!(deltas.len(), 1);
    assert!(matches!(&deltas[0], StreamDelta::Text(t) if t == "Hel"));
    stream.absorb(&parse(r#"{"choices":[{"delta":{"content":"lo"},"finish_reason":"stop"}]}"#));
    assert!(matches!(stream.line("data: [DONE]"), LineStep::Stop));
    let draft = stream.finish().expect("finished stream");
    assert_eq!(draft.text.as_deref(), Some("Hello"));
    assert_eq!(draft.finish_reason.as_deref(), Some("stop"));
}

#[test]
fn delta_frames_and_cancelled_reply() {
    let frame = delta_frame("r1", &StreamDelta::Text("hi".to_string()));
    assert!(same(&frame, r#"{"data":{"text_delta":"hi"},"ok":true,"request_id":"r1","stream":"delta"}"#));
    let frame = delta_frame("r1", &StreamDelta::Reasoning("hm".to_string()));
    assert!(same(&frame, r#"{"data":{"reasoning_delta":"hm"},"ok":true,"request_id":"r1","stream":"delta"}"#));
    assert!(same(&cancelled_reply(), r#"{"cancelled":true}"#));
}

#[test]
fn capabilities_come_from_the_matrix_then_the_name() {
    assert!(same(
        &capabilities_for("gpt-5.6-sol"),
        r#"{"parallel_tool_calls":true,"pdf":true,"streaming":true,"tools":true,"vision":true}"#
    ));
    assert!(same(
        &capabilities_for("meta:muse-spark-1.1"),
        r#"{"parallel_tool_calls":true,"pdf":false,"streaming":true,"tools":true,"vision":true}"#
    ));
    assert!(same(
        &capabilities_for("anthropic:some-new-model"),
        r#"{"parallel_tool_calls":true,"pdf":true,"streaming":true,"tools":true,"vision":true}"#
    ));
    assert!(same(
        &capabilities_for("o3-mini"),
        r#"{"parallel_tool_calls":false,"pdf":false,"streaming":true,"tools":true,"vision":false}"#
    ));
    assert!(same(
        &capabilities_for("acme:GLM-9"),
        r#"{"parallel_tool_calls":true,"pdf":false,"streaming":true,"tools":true,"vision":false}"#
    ));
    assert!(same(
        &capabilities_for("mystery"),
        r#"{"parallel_tool_calls":false,"pdf":false,"streaming":true,"tools":true,"vision":false}"#
    ));
}

#[test]
fn routes_follow_configured_providers() {
    let providers = vec!["zai".to_string(), "openai".to_string()];
    assert!(same(&route("zai:glm-5.2", &providers, "openai"), r#"{"bare":"glm-5.2","provider":"zai"}"#));
    assert!(same(&route("acme:x", &providers, "openai"), r#"{"bare":"acme:x","provider":"openai"}"#));
    assert!(same(&route("gpt-5.5", &providers, "openai"), r#"{"bare":"gpt-5.5","provider":"openai"}"#));
}

#[test]
fn quota_and_access_errors_are_explained() {
    let quota = friendly_model_error("gpt-5.5", "Error: insufficient_quota");
    assert!(same(
        &quota,
        r#"{"message":"Your account is out of quota for gpt-5.5 - add credits or raise the limit in the provider's billing console, or pick a different model."}"#
    ));
    let unrelated = friendly_model_error("gpt-5.5", "connection reset");
    assert!(same(&unrelated, r#"{"message":null}"#));
}

#[test]
fn suggested_models_strip_the_provider_and_add_extras() {
    assert_eq!(suggested_models("zai"), vec!["glm-5.2".to_string(), "glm-4.6".to_string()]);
    assert_eq!(
        suggested_models("openai"),
        vec!["gpt-5.6-sol", "gpt-5.6-terra", "gpt-5.6-luna", "gpt-5.5"]
    );
    assert_eq!(
        suggested_models("deepseek"),
        vec!["deepseek-v4-flash".to_string(), "deepseek-v4-pro".to_string()]
    );
    assert!(suggested_models("nobody").is_empty());
}
