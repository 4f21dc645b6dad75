use delta_core::json::{Json, JsonNumber};
use delta_core::runtime::events::{EventSink, NullSink, RuntimeEvent};
use delta_core::runtime::recovery::{partition_open_runs, RecoveryReport};
use delta_core::runtime::tools::{ToolExitState, ToolResult};

fn get<'a>(value: &'a Json, key: &str) -> &'a Json {
    value.get(key).expect("member present")
}

#[test]
fn test_event_to_frame() {
    let event = RuntimeEvent::TurnStart {
        input: Json::String("hello".to_string()),
        attachments: Vec::new(),
        source: None,
        run_id: Some("run-1".to_string()),
    };
    let frame = event.to_frame("session-1", 1);
    assert_eq!(get(&frame, "type").as_str(), Some("turn_start"));
    assert!(matches!(get(&frame, "version"), Json::Number(JsonNumber::PosInt(1))));
    assert_eq!(get(&frame, "sessionId").as_str(), Some("session-1"));
    assert!(matches!(get(&frame, "sequence"), Json::Number(JsonNumber::PosInt(1))));
    assert_eq!(get(get(&frame, "payload"), "run_id").as_str(), Some("run-1"));
}

#[test]
fn frames_are_compact_json_lines() {
    let event = RuntimeEvent::ToolFinished {
        tool_call_id: "c1".to_string(),
        name: "read_file".to_string(),
        result: Json::Object(vec![("ok".to_string(), Json::Bool(true))]),
        error: None,
    };
    let text = event.to_frame("s", 7).to_text();
    assert_eq!(
        text,
        "{\"payload\":{\"error\":null,\"name\":\"read_file\",\"result\":{\"ok\":true},\"tool_call_id\":\"c1\"},\"sequence\":7,\"sessionId\":\"s\",\"type\":\"tool_finished\",\"version\":1}"
    );
}

#[test]
fn json_text_escapes_strings_like_the_wire_format() {
    let value = Json::Array(vec![
        Json::String("a\"b\\c\n\t\u{1}é".to_string()),
        Json::Number(JsonNumber::NegInt(-12)),
        Json::Number(JsonNumber::Float("0.5".to_string())),
        Json::Null,
        Json::Bool(false),
    ]);
    assert_eq!(
        value.to_text(),
        "[\"a\\\"b\\\\c\\n\\t\\u0001é\",-12,0.5,null,false]"
    );
}

#[test]
fn question_payload_carries_the_tool_call_id() {
    let event = RuntimeEvent::QuestionRequested {
        tool_call_id: "q1".to_string(),
        arguments: Json::Object(vec![
            ("question".to_string(), Json::String("Which?".to_string())),
            ("tool_call_id".to_string(), Json::String("stale".to_string())),
        ]),
    };
    let frame = event.to_frame("s", 2);
    let payload = get(&frame, "payload");
    assert_eq!(get(payload, "tool_call_id").as_str(), Some("q1"));
    assert_eq!(get(payload, "question").as_str(), Some("Which?"));
    let bare = RuntimeEvent::QuestionRequested {
        tool_call_id: "q2".to_string(),
        arguments: Json::Null,
    };
    assert_eq!(
        bare.to_frame("s", 3).to_text(),
        "{\"payload\":{\"tool_call_id\":\"q2\"},\"sequence\":3,\"sessionId\":\"s\",\"type\":\"question_requested\",\"version\":1}"
    );
}

#[test]
fn null_sink_accepts_every_frame() {
    assert!(NullSink.emit(Json::Null).is_ok());
}

#[test]
fn tool_results_report_success_and_failure() {
    let ok = ToolResult::success("c1", Json::Bool(true));
    assert_eq!(ok.state, ToolExitState::Completed);
    assert!(ok.error.is_none());
    let failed = ToolResult::failure("c2", "boom".to_string());
    assert_eq!(failed.state, ToolExitState::Failed);
    assert_eq!(failed.error.as_deref(), Some("boom"));
    assert_eq!(failed.output.to_text(), "{\"error\":\"boom\",\"ok\":false}");
}

#[test]
fn recovery_partitions_open_runs_by_checkpoint() {
    let open = vec!["run-a".to_string(), "run-b".to_string(), "run-c".to_string()];
    let (interrupted, waiting) = partition_open_runs(&open, &vec![false, true, false]);
    assert_eq!(interrupted, vec!["run-a", "run-c"]);
    assert_eq!(waiting, vec!["run-b"]);
    let empty: RecoveryReport<()> = RecoveryReport::default();
    assert!(empty.interrupted_runs.is_empty() && empty.recovered_waiting.is_empty());
}
