use delta_core::capability::abi::CapabilityInputFile;
use delta_core::capability::inputs::{check_input_hash, input_file_record};
use delta_core::json::{Json, JsonNumber};
use delta_core::runtime::host::{RuntimeConfig, RuntimeHost};
use delta_core::runtime::approval_flow::{
    answered_interaction, approval_route, approval_verdict, approval_wait_step, awaiting_state,
    cancelled_interaction, interaction_setup, interaction_wait_step, park_request, ApprovalEvent,
    ApprovalRoute, ApprovalStep, InteractionEvent, InteractionStep,
};
use delta_core::runtime::control::RuntimeState;
use delta_core::runtime::tools::ToolExitState;
use delta_core::runtime::turn::{assistant_turn_of, turn_status, turn_step, TurnAction, TurnEvent, TurnView};

const ABC_SHA256: &str = "ba7816bf8f01cfea414140de5dae2223b00361a396177a9cb410ff61f20015ad";

#[test]
fn approval_routes_follow_the_policy_and_standing_grants() {
    assert_eq!(approval_route(true, false, true), ApprovalRoute::Policy);
    assert_eq!(approval_route(false, true, true), ApprovalRoute::Standing);
    assert_eq!(approval_route(false, false, false), ApprovalRoute::Denied);
    assert_eq!(approval_route(false, true, false), ApprovalRoute::AskUser);
    assert_eq!(awaiting_state(true), RuntimeState::WaitingUser);
    assert_eq!(awaiting_state(false), RuntimeState::WaitingApproval);
}

#[test]
fn approval_wait_ends_on_cancel_answer_or_abandonment() {
    let decided = ApprovalEvent::Decided { decision: "once".to_string(), approved: true };
    match approval_wait_step(true, decided) {
        ApprovalStep::Cancelled(m) => assert_eq!(m, "run cancelled while approval was pending"),
        _ => panic!("a cancelled run ends the wait"),
    }
    assert!(matches!(approval_wait_step(false, ApprovalEvent::Timeout), ApprovalStep::Wait));
    match approval_wait_step(false, ApprovalEvent::Disconnected) {
        ApprovalStep::Abandoned(m) => assert_eq!(m, "approval request was abandoned"),
        _ => panic!("a lost answer abandons the wait"),
    }
    let denied = ApprovalEvent::Decided { decision: "deny".to_string(), approved: false };
    match approval_wait_step(false, denied) {
        ApprovalStep::Resolved { decision, approved, status, ledger_event } => {
            assert_eq!(decision, "deny");
            assert!(!approved);
            assert_eq!(status, "denied");
            assert_eq!(ledger_event, "approval.denied");
        }
        _ => panic!("a decision resolves the wait"),
    }
    assert_eq!(approval_verdict(Ok(true)), None);
    assert_eq!(approval_verdict(Ok(false)), Some("tool call denied by user".to_string()));
    assert_eq!(approval_verdict(Err("gone".to_string())), Some("gone".to_string()));
}

#[test]
fn unattended_requests_need_the_inbox() {
    assert_eq!(park_request(false, None, "x: "), Ok(None));
    assert_eq!(park_request(true, None, "x: ").unwrap_err(), "inbox authority is unavailable");
    assert_eq!(park_request(true, Some(Ok("item-1".to_string())), "x: "), Ok(Some("item-1".to_string())));
    assert_eq!(
        interaction_setup(Ok(()), true, Some(Err("locked".to_string()))).unwrap_err(),
        "failed to persist inbox interaction: locked"
    );
    assert_eq!(interaction_setup(Err("sink down".to_string()), true, None).unwrap_err(), "sink down");
    assert_eq!(interaction_setup(Ok(()), false, None), Ok(None));
}

#[test]
fn interaction_wait_delivers_the_answer_or_fails_the_call() {
    let answer = Json::String("yes".to_string());
    assert!(matches!(interaction_wait_step(true, InteractionEvent::Answered(answer)), InteractionStep::Cancelled));
    assert!(matches!(interaction_wait_step(false, InteractionEvent::Timeout), InteractionStep::Wait));
    match interaction_wait_step(false, InteractionEvent::Disconnected) {
        InteractionStep::Abandoned(m) => assert_eq!(m, "user interaction was abandoned"),
        _ => panic!("a lost answer abandons the wait"),
    }
    match interaction_wait_step(false, InteractionEvent::Answered(Json::Bool(true))) {
        InteractionStep::Answered(v) => assert_eq!(v.to_text(), "true"),
        _ => panic!("an answer ends the wait"),
    }
    let cancelled = cancelled_interaction("call-1", Ok(()));
    assert_eq!(cancelled.state, ToolExitState::Failed);
    assert_eq!(cancelled.error.as_deref(), Some("run cancelled while user input was pending"));
    let unrecorded = cancelled_interaction("call-1", Err("disk".to_string()));
    assert_eq!(
        unrecorded.error.as_deref(),
        Some("run cancelled while user input was pending; failed to persist interaction.cancelled: disk")
    );
    let answered = answered_interaction("call-2", Json::Bool(true), Ok(()));
    assert_eq!(answered.state, ToolExitState::Completed);
    assert_eq!(answered.output.to_text(), "true");
    let lost = answered_interaction("call-2", Json::Bool(true), Err("disk".to_string()));
    assert_eq!(lost.error.as_deref(), Some("failed to persist interaction.resolved: disk"));
}

fn view(iterations: usize, retries: u32) -> TurnView {
    TurnView { iterations, retries, max_iterations: 3, max_retries: 2 }
}

#[test]
fn turn_loop_stops_at_its_limit_and_on_cancel() {
    let (v, a) = turn_step(view(3, 0), TurnEvent::Begin { cancelled: false });
    assert_eq!(v, view(3, 0));
    assert!(matches!(a, TurnAction::Exhausted));
    assert_eq!(turn_status(&a).as_deref(), Some("max_iterations_exceeded"));
    let (v, a) = turn_step(view(1, 0), TurnEvent::Begin { cancelled: false });
    assert_eq!(v.iterations, 2);
    assert!(matches!(a, TurnAction::Request));
    let (_, a) = turn_step(view(1, 0), TurnEvent::Begin { cancelled: true });
    assert!(matches!(a, TurnAction::Interrupt { text: false, reasoning: false }));
    assert_eq!(turn_status(&a).as_deref(), Some("interrupted"));
    let (_, a) = turn_step(
        view(1, 0),
        TurnEvent::StreamInterrupted { streamed_text: true, streamed_reasoning: false, cancelled: true },
    );
    assert!(matches!(a, TurnAction::Interrupt { text: true, reasoning: false }));
    let (_, a) = turn_step(
        view(1, 0),
        TurnEvent::StreamInterrupted { streamed_text: true, streamed_reasoning: false, cancelled: false },
    );
    assert!(matches!(a, TurnAction::Next { text: true, reasoning: false }));
}

#[test]
fn turn_loop_retries_only_unseen_transient_failures() {
    let failed = |streamed: bool| TurnEvent::StreamFailed {
        error: "HTTP 503".to_string(),
        streamed,
        cancelled: false,
        retryable: true,
    };
    let (v, a) = turn_step(view(1, 0), failed(false));
    assert_eq!(v.retries, 1);
    match a {
        TurnAction::Retry { notice } => assert_eq!(notice, "Retrying (attempt 1/2)"),
        _ => panic!("a transient failure is retried"),
    }
    let (v, a) = turn_step(view(1, 2), failed(false));
    assert_eq!(v.retries, 2);
    assert!(matches!(a, TurnAction::Fail { .. }));
    match turn_step(view(1, 0), failed(true)).1 {
        TurnAction::Fail { error, text, reasoning } => {
            assert_eq!(error, "HTTP 503");
            assert!(text && reasoning);
        }
        _ => panic!("a failure after output is not retried"),
    }
}

#[test]
fn turn_loop_runs_tools_or_completes() {
    let replied = |has_tool_calls: bool, steered: bool| TurnEvent::Replied {
        cancelled: false,
        has_reply: true,
        has_tool_calls,
        steered,
        streamed: true,
    };
    assert!(matches!(turn_step(view(1, 0), replied(true, false)).1, TurnAction::RunTools));
    assert!(matches!(turn_step(view(1, 0), replied(false, true)).1, TurnAction::Next { .. }));
    let (_, a) = turn_step(view(1, 0), replied(false, false));
    assert_eq!(turn_status(&a).as_deref(), Some("completed"));
    assert!(matches!(turn_step(view(1, 0), TurnEvent::ToolsDone { cancelled: true }).1, TurnAction::Interrupt { .. }));
    assert!(matches!(turn_step(view(1, 0), TurnEvent::ToolsDone { cancelled: false }).1, TurnAction::Next { .. }));
}

#[test]
fn input_files_are_recorded_and_checked_by_digest() {
    let record = input_file_record("/w/a.txt".to_string(), b"abc");
    assert_eq!(record.sha256.as_deref(), Some(ABC_SHA256));
    assert_eq!(record.size, Some(3));
    assert!(check_input_hash(&record, b"abc").is_ok());
    assert_eq!(
        check_input_hash(&record, b"abd").unwrap_err(),
        "input hash changed before execution: /w/a.txt"
    );
    let unrecorded = CapabilityInputFile { path: "/w/b".to_string(), sha256: None, size: None };
    assert!(check_input_hash(&unrecorded, b"anything").is_ok());
}

fn obj(members: Vec<(&str, Json)>) -> Json {
    Json::Object(members.into_iter().map(|(k, v)| (k.to_string(), v)).collect())
}

#[test]
fn provider_replies_are_read_as_assistant_turns() {
    let cancelled = obj(vec![("cancelled", Json::Bool(true))]);
    assert!(assistant_turn_of(&cancelled).is_none());
    let reply = obj(vec![
        ("finish_reason", Json::String("tool_calls".to_string())),
        ("text", Json::String("Looking.".to_string())),
        (
            "tool_calls",
            Json::Array(vec![
                obj(vec![
                    ("arguments", obj(vec![("path", Json::String("a.txt".to_string()))])),
                    ("id", Json::String("call-1".to_string())),
                    ("name", Json::String("read_file".to_string())),
                ]),
                obj(vec![]),
            ]),
        ),
    ]);
    let turn = assistant_turn_of(&reply).expect("a reply");
    assert_eq!(turn.text.as_deref(), Some("Looking."));
    assert_eq!(turn.reasoning, None);
    assert_eq!(turn.finish_reason.as_deref(), Some("tool_calls"));
    assert!(turn.usage.is_none());
    assert_eq!(turn.tool_calls.len(), 2);
    assert_eq!(turn.tool_calls[0].id, "call-1");
    assert_eq!(turn.tool_calls[0].name, "read_file");
    assert_eq!(turn.tool_calls[0].arguments.to_text(), r#"{"path":"a.txt"}"#);
    assert_eq!(turn.tool_calls[1].id, "");
    assert_eq!(turn.tool_calls[1].arguments.to_text(), "{}");
}

#[test]
fn turn_loop_records_notices_and_tool_results() {
    let mut host = RuntimeHost::new("s1", RuntimeConfig::default());
    let before = host.messages().len();
    host.record_notice("retrying", Some("Retrying (attempt 1/2)"), &JsonNumber::Float("1.5".to_string()));
    host.record_notice("interrupted", None, &JsonNumber::Float("2.5".to_string()));
    host.record_tool_result("call-1", &obj(vec![("ok", Json::Bool(true))]));
    let messages = host.messages();
    assert_eq!(messages.len(), before + 3);
    assert_eq!(
        messages[before].to_text(),
        r#"{"kind":"retrying","role":"notice","text":"Retrying (attempt 1/2)","ts":1.5}"#
    );
    assert_eq!(messages[before + 1].to_text(), r#"{"kind":"interrupted","role":"notice","ts":2.5}"#);
    assert_eq!(
        messages[before + 2].to_text(),
        r#"{"content":{"ok":true},"role":"tool","tool_call_id":"call-1"}"#
    );
}
