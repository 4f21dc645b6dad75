use delta_core::core_control::{
    accepted_reply, active_run_reply, approval_decision, audit_limit, automation_session, check_initialized,
    closing_recovery, default_model_id, effort_override, execution_mode, failure_reply, interaction_response,
    probe_call, probe_verdict, run_limits, session_not_found, session_prompt, start_failure_records, start_workspace,
    ExecutionMode,
};
use delta_core::json::{Json, JsonNumber};
use delta_core::runtime::tools::{ToolExitState, ToolResult};

fn convert(value: &serde_json::Value) -> Json {
    match value {
        serde_json::Value::Null => Json::Null,
        serde_json::Value::Bool(b) => Json::Bool(*b),
        serde_json::Value::Number(n) => {
            if let Some(u) = n.as_u64() {
                Json::Number(JsonNumber::PosInt(u))
            } else if let Some(i) = n.as_i64() {
                Json::Number(JsonNumber::NegInt(i))
            } else {
                Json::Number(JsonNumber::Float(n.to_string()))
            }
        },
        serde_json::Value::String(s) => Json::String(s.clone()),
        serde_json::Value::Array(items) => Json::Array(items.iter().map(convert).collect()),
        serde_json::Value::Object(map) => {
            Json::Object(map.iter().map(|(k, v)| (k.clone(), convert(v))).collect())
        },
    }
}

fn parse(text: &str) -> Json {
    let value: serde_json::Value = serde_json::from_str(text).expect("test JSON");
    convert(&value)
}

fn same(a: &Json, text: &str) -> bool {
    a.same(&parse(text))
}

#[test]
fn failures_are_reported_as_not_ok() {
    assert!(same(&failure_reply("boom"), r#"{"error":"boom","ok":false}"#));
    assert!(same(&session_not_found("s1"), r#"{"error":"session not found: s1","ok":false}"#));
    assert!(same(&active_run_reply("s1"), r#"{"error":"session s1 already has an active run","ok":false}"#));
    assert!(same(
        &accepted_reply("run-1".to_string(), Json::String("running".to_string())),
        r#"{"accepted":true,"ok":true,"runId":"run-1","state":"running"}"#
    ));
}

#[test]
fn run_settings_come_from_the_request_then_the_session() {
    assert_eq!(execution_mode(Some("plan")), ExecutionMode::Plan);
    assert_eq!(execution_mode(Some("execute")), ExecutionMode::Execute);
    assert_eq!(execution_mode(None), ExecutionMode::Execute);
    assert_eq!(start_workspace(Some("/w".to_string()), Some("/s".to_string())).as_deref(), Some("/w"));
    assert_eq!(start_workspace(Some(String::new()), Some("/s".to_string())).as_deref(), Some("/s"));
    assert_eq!(start_workspace(None, Some(String::new())), None);
    assert_eq!(effort_override(Some("auto".to_string())), None);
    assert_eq!(effort_override(Some("high".to_string())).as_deref(), Some("high"));
    assert_eq!(run_limits(None, None), (12, 2));
    assert_eq!(run_limits(Some(3), Some(0)), (3, 0));
}

#[test]
fn plan_mode_and_skills_shape_the_system_prompt() {
    let rows = vec![parse(r#"{"name":"review","enabled":true}"#)];
    let listed = vec![parse(r#"{"name":"review","instructions":"Check twice."}"#)];
    let prompt = session_prompt("Base.", None, Some("review"), &rows, Some(&listed)).unwrap();
    assert_eq!(prompt, "Base.\n\nActive skill instructions:\nCheck twice.");
    let planned = session_prompt("Base.", Some("plan"), None, &rows, None).unwrap();
    assert!(planned.starts_with("Base.\n\nPlan mode is active."));
    let missing = session_prompt("Base.", None, Some("other"), &rows, Some(&listed)).unwrap_err();
    assert_eq!(missing, "skill is unavailable for this session: other");
    let unlisted = session_prompt("Base.", None, Some("review"), &rows, None).unwrap();
    assert_eq!(unlisted, "Base.");
}

#[test]
fn inbox_resolutions_become_responses() {
    assert_eq!(approval_decision("yes"), "once");
    assert_eq!(approval_decision("always_tool"), "always_tool");
    assert_eq!(approval_decision("no"), "deny");
    let data = parse(r#"{"path":"/tmp/x","writable":true}"#);
    let answer = interaction_response("question", "A", None, &data).unwrap();
    assert!(same(&answer, r#"{"answer":"A"}"#));
    let grant = interaction_response("directory", "allow", None, &data).unwrap();
    assert!(same(&grant, r#"{"granted":true,"path":"/tmp/x","writable":true}"#));
    let decoded = interaction_response("directory", "{}", Some(parse(r#"{"granted":false}"#)), &data).unwrap();
    assert!(same(&decoded, r#"{"granted":false}"#));
    let plan = interaction_response("plan", "make it smaller", None, &data).unwrap();
    assert!(same(&plan, r#"{"approved":false,"feedback":"make it smaller"}"#));
    let approved = interaction_response("plan", "approve", None, &data).unwrap();
    assert!(same(&approved, r#"{"approved":true,"feedback":null}"#));
    assert!(interaction_response("other", "x", None, &data).is_none());
}

#[test]
fn automation_runs_close_on_terminal_events() {
    assert_eq!(automation_session("r1"), "__run__r1");
    let frame = parse(r#"{"type":"turn_end","sessionId":"__run__r1","payload":{"status":"completed"}}"#);
    let (session, record) = closing_recovery(&frame).unwrap();
    assert_eq!(session, "__run__r1");
    assert!(same(&record, r#"{"event":"turn_end","payload":{"status":"completed"}}"#));
    let bare = parse(r#"{"type":"error","sessionId":"__run__r2"}"#);
    let (_, record) = closing_recovery(&bare).unwrap();
    assert!(same(&record, r#"{"event":"error","payload":{}}"#));
    assert!(closing_recovery(&parse(r#"{"type":"turn_end","sessionId":"s1"}"#)).is_none());
    assert!(closing_recovery(&parse(r#"{"type":"text_delta","sessionId":"__run__r1"}"#)).is_none());
}

#[test]
fn failed_automation_start_is_recorded() {
    let (frame, record) = start_failure_records("__run__r1", Json::String("no model".to_string()));
    assert!(same(
        &frame,
        r#"{"payload":{"error":"no model","error_type":"automation_start_failed","terminal":true},"sequence":0,"sessionId":"__run__r1","type":"error","version":1}"#
    ));
    assert!(same(
        &record,
        r#"{"event":"error","payload":{"error":"no model","error_type":"automation_start_failed","terminal":true}}"#
    ));
}

#[test]
fn audit_pages_are_bounded() {
    assert_eq!(audit_limit(None), 100);
    assert_eq!(audit_limit(Some(0)), 1);
    assert_eq!(audit_limit(Some(900)), 500);
    assert_eq!(audit_limit(Some(42)), 42);
    assert_eq!(default_model_id(&parse(r#"{"model":"gpt-5.5"}"#)), "gpt-5.5");
    assert_eq!(default_model_id(&parse(r#"{}"#)), "");
}

#[test]
fn portable_self_test_verdicts() {
    assert!(check_initialized(&parse("{}"), &parse("[]")).is_ok());
    assert_eq!(
        check_initialized(&parse("[]"), &parse("[]")).unwrap_err(),
        "embedded Runtime authorities did not initialize"
    );
    let call = probe_call();
    assert_eq!(call.name, "read_file");
    let ok = ToolResult::success("portable-self-test", parse(r#"{"text":"delta-runtime-ready"}"#));
    assert!(probe_verdict(&ok).is_ok());
    let failed = ToolResult::failure("portable-self-test", "nope".to_string());
    assert_eq!(probe_verdict(&failed).unwrap_err(), "native capability self-test failed: Failed");
    assert_eq!(failed.state, ToolExitState::Failed);
}
