use std::cell::RefCell;

use delta_core::json::{Json, JsonNumber};
use delta_core::runtime::delivery::{DeltaAccumulator, EventEmitter, LineBuffer};
use delta_core::runtime::events::{EventSink, RuntimeEvent};

fn convert(value: &serde_json::Value) -> Json {
    match value {
        serde_json::Value::Null => Json::Null,
        serde_json::Value::Bool(b) => Json::Bool(*b),
        serde_json::Value::Number(n) => {
            if let Some(u) = n.as_u64() {
                Json::Number(JsonNumber::PosInt(u))
            } else if let Some(i) = n.as_i64() {
                Json::Number(JsonNumber::NegInt(i))
            } else {
                Json::Number(JsonNumber::Float(n.to_string()))
            }
        }
        serde_json::Value::String(s) => Json::String(s.clone()),
        serde_json::Value::Array(items) => Json::Array(items.iter().map(convert).collect()),
        serde_json::Value::Object(map) => Json::Object(map.iter().map(|(k, v)| (k.clone(), convert(v))).collect()),
    }
}

fn decode(bytes: &[u8]) -> Option<Json> {
    serde_json::from_slice::<serde_json::Value>(bytes).ok().map(|v| convert(&v))
}

#[derive(Default)]
struct CaptureSink {
    frames: RefCell<Vec<Json>>,
}

impl EventSink for CaptureSink {
    fn emit(&self, frame: Json) -> Result<(), String> {
        self.frames.borrow_mut().push(frame);
        Ok(())
    }
}

struct FailingSink;

impl EventSink for FailingSink {
    fn emit(&self, _frame: Json) -> Result<(), String> {
        Err("disk full".to_string())
    }
}

fn text(value: Option<&Json>) -> Option<String> {
    match value {
        Some(Json::String(s)) => Some(s.clone()),
        _ => None,
    }
}

fn deliver(
    lines: Vec<Vec<u8>>,
    acc: &mut DeltaAccumulator,
    emitter: &mut EventEmitter,
    sink: &impl EventSink,
) {
    for line in lines {
        if let Some(frame) = decode(&line) {
            for event in acc.absorb(&frame) {
                emitter.emit(|f| sink.emit(f), &event);
            }
        }
    }
}

#[test]
fn provider_frames_are_converted_to_runtime_envelopes() {
    let sink = CaptureSink::default();
    let mut emitter = EventEmitter::new("session-1".to_string());
    let mut buffer = LineBuffer::new();
    let mut acc = DeltaAccumulator::new();
    let lines = buffer.push(
        b"{\"ok\":true,\"stream\":\"delta\",\"request_id\":\"private\",\"data\":{\"text_delta\":\"hi\"}}\n",
    );
    deliver(lines, &mut acc, &mut emitter, &sink);
    if let Some(tail) = buffer.finish() {
        deliver(vec![tail], &mut acc, &mut emitter, &sink);
    }
    assert_eq!(acc.text, "hi");
    assert!(acc.reasoning.is_empty());

    let frames = sink.frames.borrow();
    assert_eq!(frames.len(), 1);
    assert_eq!(text(frames[0].get("type")).as_deref(), Some("assistant_delta"));
    assert!(frames[0].get("version").unwrap().same(&Json::Number(JsonNumber::PosInt(1))));
    assert_eq!(text(frames[0].get("sessionId")).as_deref(), Some("session-1"));
    assert!(frames[0].get("sequence").unwrap().same(&Json::Number(JsonNumber::PosInt(1))));
    assert_eq!(text(frames[0].get("payload").and_then(|p| p.get("text"))).as_deref(), Some("hi"));
    assert!(frames[0].get("stream").is_none());
    assert!(frames[0].get("request_id").is_none());
}

#[test]
fn lines_are_cut_at_newlines_across_writes() {
    let mut buffer = LineBuffer::new();
    assert!(buffer.push(b"{\"a\":").is_empty());
    let lines = buffer.push(b"1}\r\n\n{\"b\":2}\n{\"c\"");
    assert_eq!(lines, vec![b"{\"a\":1}".to_vec(), b"{\"b\":2}".to_vec()]);
    assert_eq!(buffer.finish(), Some(b"{\"c\"".to_vec()));
    assert_eq!(LineBuffer::new().finish(), None);
}

#[test]
fn reasoning_deltas_follow_text_deltas() {
    let mut acc = DeltaAccumulator::new();
    let frame = decode(b"{\"data\":{\"text_delta\":\"a\",\"reasoning_delta\":\"b\"}}").unwrap();
    let events = acc.absorb(&frame);
    assert_eq!(events.len(), 2);
    assert!(matches!(&events[0], RuntimeEvent::AssistantDelta { text } if text == "a"));
    assert!(matches!(&events[1], RuntimeEvent::ReasoningDelta { text } if text == "b"));
    assert!(acc.absorb(&decode(b"{\"ok\":true}").unwrap()).is_empty());
}

#[test]
fn a_failed_delivery_stops_later_events() {
    let mut emitter = EventEmitter::new("s".to_string());
    let event = RuntimeEvent::AssistantDelta { text: "x".to_string() };
    emitter.emit(|f| FailingSink.emit(f), &event);
    assert_eq!(emitter.sequence, 0);
    assert_eq!(emitter.ensure_delivery().unwrap_err(), "runtime event persistence failed: disk full");
    let sink = CaptureSink::default();
    emitter.emit(|f| sink.emit(f), &event);
    assert!(sink.frames.borrow().is_empty());
    emitter.clear_error();
    emitter.emit(|f| sink.emit(f), &event);
    assert_eq!(emitter.sequence, 1);
    assert!(emitter.ensure_delivery().is_ok());
}
