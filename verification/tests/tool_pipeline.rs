use delta_core::mcp::rpc::decode_message;
use delta_core::runtime::delivery::DeltaAccumulator;
use delta_core::capability::abi::CapabilityGrants;
use delta_core::capability::host::prepare_job;
use delta_core::json::Json;
use delta_core::provider::replies::{finish_decoded, ArgumentsDraft, ReplyDraft, ToolCallDraft};
use delta_core::runtime::approval_flow::{
    approval_request_step, begin_approval_request, ApprovalStep, RequestAction, RequestStep,
};
use delta_core::runtime::control::RuntimeState;
use delta_core::runtime::recovery::{new_recovery, recovery_step, RecoveryAction, RecoveryEvent};
use delta_core::runtime::tool_call::{
    new_tool_call, tool_call_step, LedgerNote, PlanKind, PolicyVerdict, SideEffectPlan, ToolCallAction,
    ToolCallEvent, ToolCallPhase, ToolCallState,
};
use delta_core::runtime::tools::{ToolExitState, ToolResult};

fn ok() -> ToolCallEvent {
    ToolCallEvent::Done(Ok(()))
}

fn verdict(allowed: bool, needs_user: bool) -> ToolCallEvent {
    ToolCallEvent::Evaluated(Ok(PolicyVerdict {
        level: "L2".to_string(),
        allowed,
        needs_user,
        reason: "explicit approval required for L2".to_string(),
    }))
}

fn plan(kind: PlanKind) -> ToolCallEvent {
    ToolCallEvent::Planned(Ok(SideEffectPlan { kind, result: None, error_message: None, operation_id: None }))
}

/// Feed `events` and return the state and the last action.
fn run(events: Vec<ToolCallEvent>) -> (ToolCallState, ToolCallAction) {
    let mut state = new_tool_call("call-1".to_string(), false);
    let mut last = ToolCallAction::Ignore;
    for event in events {
        let (next, action) = tool_call_step(state, event);
        state = next;
        last = action;
    }
    (state, last)
}

fn finished(action: ToolCallAction) -> ToolResult {
    match action {
        ToolCallAction::Finish(result) => result,
        _ => panic!("the call has not finished"),
    }
}

fn object(members: Vec<(&str, Json)>) -> Json {
    Json::Object(members.into_iter().map(|(k, v)| (k.to_string(), v)).collect())
}

#[test]
fn a_policy_cleared_call_executes_and_completes_with_its_validation() {
    let (state, action) = run(vec![
        ToolCallEvent::Begin,
        ok(),
        verdict(true, false),
        ok(),
        ok(),
        ok(),
        ToolCallEvent::Interaction(None),
        plan(PlanKind::Execute),
        ok(),
    ]);
    assert!(state.cleared);
    assert!(matches!(action, ToolCallAction::Execute));
    let executed = ToolCallEvent::Executed {
        progress_error: None,
        cancelled: false,
        result: ToolResult::success("call-1", object(vec![("text", Json::String("hi".to_string()))])),
    };
    let (state, action) = tool_call_step(state, executed);
    assert!(matches!(action, ToolCallAction::Finalize));
    let (state, _) = tool_call_step(state, ToolCallEvent::Finalized(Ok(Vec::new())));
    let (state, action) =
        tool_call_step(state, ToolCallEvent::Validated(Ok(object(vec![("ok", Json::Bool(true))]))));
    match &action {
        ToolCallAction::Commit { output } => {
            assert_eq!(output.to_text(), r#"{"text":"hi","validation":{"ok":true}}"#)
        }
        _ => panic!("a validated result is committed"),
    }
    let (state, _) = tool_call_step(state, ok());
    let (state, action) = tool_call_step(state, ok());
    assert!(matches!(action, ToolCallAction::Checkpoint));
    let (state, action) = tool_call_step(state, ok());
    let result = finished(action);
    assert_eq!(state.phase, ToolCallPhase::Done);
    assert_eq!(result.state, ToolExitState::Completed);
    assert_eq!(result.output.to_text(), r#"{"text":"hi","validation":{"ok":true}}"#);
}

#[test]
fn nothing_runs_before_the_user_approves() {
    let (state, action) = run(vec![ToolCallEvent::Begin, ok(), verdict(false, true), ok()]);
    assert!(matches!(action, ToolCallAction::CheckStandingGrant));
    let (state, action) = tool_call_step(state, ToolCallEvent::StandingGrant(false));
    match action {
        ToolCallAction::RequestApproval { awaiting, .. } => assert_eq!(awaiting, RuntimeState::WaitingApproval),
        _ => panic!("the user is asked"),
    }
    assert!(!state.cleared);
    let (state, action) = tool_call_step(state, ok());
    assert!(matches!(action, ToolCallAction::AwaitApproval));
    let (state, _) = tool_call_step(state, ToolCallEvent::Approval(ApprovalStep::Wait));
    let denied = ApprovalStep::Resolved {
        decision: "deny".to_string(),
        approved: false,
        status: "denied".to_string(),
        ledger_event: "approval.denied".to_string(),
    };
    let (state, _) = tool_call_step(state, ToolCallEvent::Approval(denied));
    let (state, action) = tool_call_step(state, ok());
    match &action {
        ToolCallAction::Ledger { event_type, actor, note: LedgerNote::Reason(r) } => {
            assert_eq!(event_type, "tool.cancelled");
            assert_eq!(actor, "user");
            assert_eq!(r, "denied");
        }
        _ => panic!("a denial is logged"),
    }
    assert!(!state.cleared);
    let (_, action) = tool_call_step(state, ok());
    assert_eq!(finished(action).error.as_deref(), Some("tool call denied by user"));
}

#[test]
fn a_refused_call_fails_with_the_policy_reason() {
    let (state, _) = run(vec![ToolCallEvent::Begin, ok(), verdict(false, false), ok()]);
    let (state, action) = tool_call_step(state, ToolCallEvent::StandingGrant(false));
    assert!(matches!(action, ToolCallAction::RecordApproval { .. }));
    let (state, _) = tool_call_step(state, ok());
    let (_, action) = tool_call_step(state, ToolCallEvent::Done(Err("disk".to_string())));
    assert_eq!(
        finished(action).error.as_deref(),
        Some("explicit approval required for L2; failed to persist tool.failed: disk")
    );
}

#[test]
fn committed_results_replay_and_uncertain_ones_fail() {
    let cleared = vec![ToolCallEvent::Begin, ok(), verdict(true, false), ok(), ok(), ok(), ToolCallEvent::Interaction(None)];
    let mut events = cleared;
    events.push(plan(PlanKind::Replay));
    events.push(ok());
    let (_, action) = run(events);
    let replayed = finished(action);
    assert_eq!(replayed.state, ToolExitState::Completed);
    assert_eq!(replayed.output.to_text(), r#"{"ok":true}"#);
    let events = vec![
        ToolCallEvent::Begin,
        ok(),
        verdict(true, false),
        ok(),
        ok(),
        ok(),
        ToolCallEvent::Interaction(None),
        plan(PlanKind::Uncertain),
        ok(),
    ];
    let (_, action) = run(events);
    assert_eq!(finished(action).error.as_deref(), Some("previous tool result is uncertain"));
}

#[test]
fn interrupted_executions_leave_the_side_effect_uncertain() {
    let cleared = || {
        vec![
            ToolCallEvent::Begin,
            ok(),
            verdict(true, false),
            ok(),
            ok(),
            ok(),
            ToolCallEvent::Interaction(None),
            plan(PlanKind::Execute),
            ok(),
        ]
    };
    let (state, _) = run(cleared());
    let executed = ToolCallEvent::Executed {
        progress_error: None,
        cancelled: true,
        result: ToolResult::success("call-1", Json::Null),
    };
    let (state, action) = tool_call_step(state, executed);
    assert!(matches!(action, ToolCallAction::MarkUncertain { .. }));
    let (_, action) = tool_call_step(state, ok());
    assert_eq!(finished(action).error.as_deref(), Some("tool cancelled; side effect is uncertain"));

    let (state, _) = run(cleared());
    let mut timed_out = ToolResult::failure("call-1", "capability timed out".to_string());
    timed_out.state = ToolExitState::TimedOut;
    let executed = ToolCallEvent::Executed { progress_error: None, cancelled: false, result: timed_out };
    let (state, action) = tool_call_step(state, executed);
    match &action {
        ToolCallAction::MarkUncertain { event_type, .. } => assert_eq!(event_type, "tool.timed_out"),
        _ => panic!("a time-out leaves the side effect uncertain"),
    }
    let (_, action) = tool_call_step(state, ok());
    assert_eq!(finished(action).state, ToolExitState::TimedOut);

    let (state, _) = run(cleared());
    let failed = ToolResult::failure("call-1", "boom".to_string());
    let executed = ToolCallEvent::Executed { progress_error: None, cancelled: false, result: failed };
    let (_, action) = tool_call_step(state, executed);
    assert!(matches!(action, ToolCallAction::MarkFailed { .. }));

    let (state, _) = run(cleared());
    let executed = ToolCallEvent::Executed {
        progress_error: None,
        cancelled: false,
        result: ToolResult::success("call-1", object(vec![])),
    };
    let (state, _) = tool_call_step(state, executed);
    let (state, _) = tool_call_step(state, ToolCallEvent::Finalized(Ok(Vec::new())));
    let (state, _) = tool_call_step(state, ToolCallEvent::Validated(Ok(object(vec![("ok", Json::Bool(false))]))));
    let (_, action) = tool_call_step(state, ok());
    assert_eq!(
        finished(action).error.as_deref(),
        Some("tool artifact validation failed; capability execution completed but validation did not reach a trusted terminal state")
    );
}

#[test]
fn unattended_approval_requests_are_parked_in_the_inbox() {
    let (mut request, action) = begin_approval_request(true);
    assert!(matches!(action, RequestAction::Announce));
    let mut actions = Vec::new();
    let outcomes = vec![Ok(None), Ok(None), Ok(None), Ok(Some("item-7".to_string())), Ok(None), Ok(None), Ok(None)];
    for outcome in outcomes {
        match approval_request_step(request, outcome) {
            RequestStep::Do(next, action) => {
                actions.push(action);
                request = next;
            }
            _ => panic!("the setup goes on"),
        }
    }
    assert!(matches!(actions[2], RequestAction::Park));
    match &actions[3] {
        RequestAction::Checkpoint { inbox_item } => assert_eq!(inbox_item.as_deref(), Some("item-7")),
        _ => panic!("the checkpoint carries the inbox item"),
    }
    match &actions[6] {
        RequestAction::Open { awaiting } => assert_eq!(*awaiting, RuntimeState::WaitingUser),
        _ => panic!("the run waits for a user"),
    }
    assert!(matches!(approval_request_step(request, Ok(None)), RequestStep::Ready));
    let (request, _) = begin_approval_request(true);
    let (request, _) = match approval_request_step(request, Ok(None)) {
        RequestStep::Do(n, a) => (n, a),
        _ => panic!(),
    };
    match approval_request_step(request, Err("ledger down".to_string())) {
        RequestStep::Failed(e) => assert_eq!(e, "ledger down"),
        _ => panic!("a failure ends the setup"),
    }
}

#[test]
fn recovery_closes_interrupted_runs_and_keeps_waiting_ones() {
    let state = new_recovery::<String>();
    let (state, action) = recovery_step(state, RecoveryEvent::Begin);
    assert!(matches!(action, RecoveryAction::ReadOpenRuns));
    let runs = vec!["r1".to_string(), "r2".to_string()];
    let (state, _) = recovery_step(state, RecoveryEvent::OpenRuns(Ok(runs)));
    let (state, action) = recovery_step(state, RecoveryEvent::Checkpoints(Ok(vec![false, true])));
    match &action {
        RecoveryAction::Interrupt { run_id } => assert_eq!(run_id, "r1"),
        _ => panic!("the executing run is closed"),
    }
    let (state, action) = recovery_step(state, RecoveryEvent::Done(Ok(())));
    match &action {
        RecoveryAction::Sweep { runs } => assert_eq!(runs, &vec!["r1".to_string()]),
        _ => panic!("its side effects are swept"),
    }
    let (state, action) = recovery_step(state, RecoveryEvent::Swept(Ok(vec!["op-1".to_string()])));
    match &action {
        RecoveryAction::FinalizeSession { session_id } => assert_eq!(session_id, "__run__r1"),
        _ => panic!("its automation session is closed"),
    }
    let (_, action) = recovery_step(state, RecoveryEvent::Done(Ok(())));
    match action {
        RecoveryAction::Finish(report) => {
            assert_eq!(report.interrupted_runs, vec!["r1".to_string()]);
            assert_eq!(report.recovered_waiting, vec!["r2".to_string()]);
            assert_eq!(report.swept_side_effects, vec!["op-1".to_string()]);
        }
        _ => panic!("the report is given"),
    }
    let (state, _) = recovery_step(new_recovery::<String>(), RecoveryEvent::Begin);
    match recovery_step(state, RecoveryEvent::OpenRuns(Ok(Vec::new()))).1 {
        RecoveryAction::Finish(report) => assert!(report.interrupted_runs.is_empty()),
        _ => panic!("nothing to recover"),
    }
}

#[test]
fn prepared_jobs_carry_their_boundary_and_at_least_a_second() {
    let job = prepare_job(
        "file.read",
        "job-1",
        Json::Null,
        "run-1".to_string(),
        "s1".to_string(),
        Some("/ws".to_string()),
        CapabilityGrants::read_only(),
        0,
        None,
    )
    .expect("a valid boundary");
    assert_eq!(job.timeout_secs, 1);
    assert_eq!(job.boundary.provenance, "capability.registration");
    assert_eq!(job.run_id.as_deref(), Some("run-1"));
}

#[test]
fn reply_argument_texts_are_decoded_as_json() {
    let draft = ReplyDraft {
        text: None,
        reasoning: None,
        tool_calls: vec![
            ToolCallDraft {
                id: "c1".to_string(),
                name: "read_file".to_string(),
                arguments: ArgumentsDraft::Text { text: r#"{"path":"a.txt"}"#.to_string(), keep_raw: true },
            },
            ToolCallDraft {
                id: "c2".to_string(),
                name: "read_file".to_string(),
                arguments: ArgumentsDraft::Text { text: "not json".to_string(), keep_raw: true },
            },
        ],
        finish_reason: None,
        usage: None,
    };
    let reply = finish_decoded(draft).to_text();
    assert!(reply.contains(r#"{"arguments":{"path":"a.txt"},"id":"c1","name":"read_file"}"#));
    assert!(reply.contains(r#"{"arguments":{"_raw":"not json"},"id":"c2","name":"read_file"}"#));
}

#[test]
fn stream_lines_and_messages_are_decoded_by_the_library() {
    let mut acc = DeltaAccumulator::new();
    let events = acc.absorb_line(r#"{"ok":true,"data":{"text_delta":"hi"}}"#);
    assert_eq!(events.len(), 1);
    assert_eq!(acc.text, "hi");
    assert!(acc.absorb_line("not json").is_empty());
    assert_eq!(acc.text, "hi");
    let message = decode_message("  {\"jsonrpc\":\"2.0\",\"id\":1}\n").expect("a message");
    assert_eq!(message.to_text(), r#"{"id":1,"jsonrpc":"2.0"}"#);
    assert!(decode_message("{").is_none());
}
