use delta_core::json::{Json, JsonNumber};
use delta_core::provider::replies::{finish_reply, parse_anthropic_response, ArgumentsDraft};
use delta_core::provider::streams::{AnthropicStream, LineStep, ResponsesStream, StreamDelta};

fn convert(value: &serde_json::Value) -> Json {
    match value {
        serde_json::Value::Null => Json::Null,
        serde_json::Value::Bool(b) => Json::Bool(*b),
        serde_json::Value::Number(n) => {
            if let Some(u) = n.as_u64() {
                Json::Number(JsonNumber::PosInt(u))
            } else if let Some(i) = n.as_i64() {
                Json::Number(JsonNumber::NegInt(i))
            } else {
                Json::Number(JsonNumber::Float(n.to_string()))
            }
        }
        serde_json::Value::String(s) => Json::String(s.clone()),
        serde_json::Value::Array(items) => Json::Array(items.iter().map(convert).collect()),
        serde_json::Value::Object(map) => Json::Object(map.iter().map(|(k, v)| (k.clone(), convert(v))).collect()),
    }
}

fn parse(text: &str) -> Json {
    convert(&serde_json::from_str::<serde_json::Value>(text).expect("test JSON"))
}

#[test]
fn anthropic_stream_assembles_text_tools_and_usage() {
    let mut stream = AnthropicStream::new();
    assert!(matches!(stream.line("event: message_start"), LineStep::Skip));
    let events = [
        r#"{"type":"message_start","message":{"usage":{"input_tokens":10,"output_tokens":1}}}"#,
        r#"{"type":"content_block_start","index":0,"content_block":{"type":"text"}}"#,
        r#"{"type":"content_block_delta","index":0,"delta":{"type":"text_delta","text":"Hi"}}"#,
        r#"{"type":"content_block_start","index":1,"content_block":{"type":"tool_use","id":"t1","name":"read"}}"#,
        r#"{"type":"content_block_delta","index":1,"delta":{"type":"input_json_delta","partial_json":"{\"path\":"}}"#,
        r#"{"type":"content_block_delta","index":1,"delta":{"type":"input_json_delta","partial_json":"\"a\"}"}}"#,
        r#"{"type":"message_delta","delta":{"stop_reason":"tool_use"},"usage":{"output_tokens":5}}"#,
        r#"{"type":"message_stop"}"#,
    ];
    let mut texts = Vec::new();
    for event in events {
        let line = format!("data: {event}");
        let payload = match stream.line(&line) {
            LineStep::Payload(p) => p,
            _ => panic!("payload expected"),
        };
        for delta in stream.absorb(&parse(&payload)) {
            if let StreamDelta::Text(t) = delta {
                texts.push(t);
            }
        }
    }
    assert_eq!(texts, vec!["Hi".to_string()]);
    assert!(stream.is_done());
    let draft = stream.finish();
    assert_eq!(draft.text.as_deref(), Some("Hi"));
    assert_eq!(draft.finish_reason.as_deref(), Some("tool_calls"));
    assert_eq!(draft.tool_calls.len(), 1);
    match &draft.tool_calls[0].arguments {
        ArgumentsDraft::Text { text, keep_raw } => {
            assert_eq!(text, "{\"path\":\"a\"}");
            assert!(*keep_raw);
        }
        ArgumentsDraft::Decoded(_) => panic!("text expected"),
    }
    let usage = draft.usage.as_ref().unwrap();
    assert!(usage.get("output").unwrap().same(&Json::Number(JsonNumber::PosInt(5))));
    let reply = finish_reply(draft, vec![Some(parse(r#"{"path":"a"}"#))]);
    assert!(reply.get("tool_calls").is_some());
}

#[test]
fn anthropic_reply_reads_text_and_tool_use_blocks() {
    let resp = parse(
        r#"{"content":[{"type":"text","text":"ok"},{"type":"tool_use","id":"t1","name":"read","input":{"path":"a"}}],"stop_reason":"end_turn","usage":{"input_tokens":3,"output_tokens":4}}"#,
    );
    let draft = parse_anthropic_response(&resp).expect("reply");
    assert_eq!(draft.text.as_deref(), Some("ok"));
    assert_eq!(draft.finish_reason.as_deref(), Some("stop"));
    assert_eq!(draft.tool_calls.len(), 1);
    assert!(matches!(&draft.tool_calls[0].arguments, ArgumentsDraft::Decoded(_)));
}

#[test]
fn responses_stream_ends_with_the_completed_response() {
    let mut stream = ResponsesStream::new();
    let lines = [
        r#"data: {"type":"response.output_text.delta","delta":"Hel"}"#,
        r#"data: {"type":"response.output_text.delta","delta":"lo"}"#,
        r#"data: {"type":"response.completed","response":{"status":"completed","output":[{"type":"message","content":[{"type":"output_text","text":"Hello"}]}]}}"#,
    ];
    let mut texts = Vec::new();
    for line in lines {
        if let LineStep::Payload(p) = stream.line(line) {
            for delta in stream.absorb(&parse(&p)) {
                if let StreamDelta::Text(t) = delta {
                    texts.push(t);
                }
            }
        }
    }
    assert_eq!(texts, vec!["Hel".to_string(), "lo".to_string()]);
    let draft = stream.finish().expect("completed response");
    assert_eq!(draft.text.as_deref(), Some("Hello"));
}
