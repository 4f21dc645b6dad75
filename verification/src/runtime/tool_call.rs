//! The pipeline a model's tool call goes through.
//!
//! A call is checked against its contract, judged by the policy and
//! proposed; unless the policy or a standing grant of the session clears it,
//! the user must approve it. Once cleared, interactions are answered by the
//! Runtime; every other call consults the side-effect log: a committed
//! result is replayed, an uncertain one is reported, and only a fresh call
//! is executed. After execution, a progress-log failure, a cancellation, a
//! time-out or a cancelled result leaves the side effect uncertain, a failed
//! result marks it failed, and a completed one has its artifacts finalized
//! and validated before its result is committed.
//!
//! The host performs each step (event delivery, ledger and approval
//! records, the side-effect log, the executor, artifacts) and reports what
//! came of it; `tool_call_step` says what to do next and, at the end, the
//! call's result. No call is executed before it is cleared.

use vstd::prelude::*;

use crate::capability::host::is_failure_result;
use crate::json::{items_view, members_view, Json, JsonView};
use crate::runtime::approval_flow::{approval_route, awaiting_state, ApprovalRoute, ApprovalStep};
use crate::runtime::control::RuntimeState;
use crate::runtime::host::{put_member, put_member_exec};
use crate::runtime::tools::{ToolExitState, ToolResult};
use crate::text::{concat2, concat3, owned};

verus! {

/// Where a call stands in the pipeline.
#[derive(Debug, Clone, Copy, PartialEq, Eq, Structural)]
pub enum ToolCallPhase {
    Start,
    CheckingContract,
    EvaluatingPolicy,
    Proposing,
    CheckingStandingGrant,
    /// Recording that the policy cleared the call.
    RecordingPolicyClearance,
    /// Recording that a standing grant cleared the call.
    RecordingStandingClearance,
    RecordingDenial,
    RequestingApproval,
    AwaitingApproval,
    RecordingCancellation,
    RecordingDecision,
    /// Logging that the call was approved.
    LoggingApproval,
    Interacting,
    Planning,
    Replaying,
    ReportingUncertain,
    Starting,
    Executing,
    /// Recording that the side effect is uncertain; the call fails with
    /// `pending`.
    MarkingUncertain,
    /// Recording the outcome of a result that carries an error; the call
    /// ends with that result.
    SettlingError,
    Finalizing,
    Validating,
    Committing,
    LoggingCompletion,
    Checkpointing,
    /// A ledger entry is written before the call fails with `pending`.
    FailingAfterLedger,
    Done,
}

/// The policy's verdict on a call: its risk level (by name), whether it is
/// allowed, whether a refusal may be overridden by the user, and why.
pub struct PolicyVerdict {
    pub level: String,
    pub allowed: bool,
    pub needs_user: bool,
    pub reason: String,
}

/// What the side-effect log says of a call.
#[derive(Debug, Clone, Copy, PartialEq, Eq, Structural)]
pub enum PlanKind {
    Replay,
    Uncertain,
    Execute,
}

/// The side-effect log's plan: what to do, the committed result (replay),
/// the recorded error message (uncertain), and the operation.
pub struct SideEffectPlan {
    pub kind: PlanKind,
    pub result: Option<Json>,
    pub error_message: Option<String>,
    pub operation_id: Option<String>,
}

/// What a ledger entry records beyond the call's id and tool.
pub enum LedgerNote {
    /// Only the call.
    Call,
    /// The stage that failed and its error.
    Stage { stage: String, error: String },
    /// Why the call was cancelled.
    Reason(String),
    /// The risk level of an approved call.
    Level(String),
    /// The operation of an uncertain side effect.
    Operation(Option<String>),
    /// The progress log failed during execution.
    ProgressFailed(String),
    /// The call was cancelled while executing.
    CancelledUncertain,
    /// The executor's result carried an error.
    Failure { error: String, state: ToolExitState },
    /// Validation judged the artifacts failed.
    ValidationFailed { error: String, validation: Json },
    /// Committing the result failed.
    CommitFailed(String),
    /// The call completed with this output.
    Completed(Json),
}

/// The next thing the host does for a call.
pub enum ToolCallAction {
    CheckContract,
    EvaluatePolicy,
    /// Announce the proposal (with its risk level), deliver it and log
    /// `tool.proposed`.
    Propose { level: String },
    CheckStandingGrant,
    /// Record an approval decision point.
    RecordApproval { stage: String, status: String, approval: Option<String>, reason: String },
    /// Append a ledger entry.
    Ledger { event_type: String, actor: String, note: LedgerNote },
    /// Ask the user: announce the request, log it, record it pending, park
    /// it in the inbox when the run is unattended, checkpoint, and show the
    /// run as `awaiting`.
    RequestApproval { reason: String, unattended: bool, awaiting: RuntimeState },
    /// Poll for the user's decision.
    AwaitApproval,
    /// Withdraw the pending request and record the cancellation.
    RecordCancellation { message: String },
    /// Record the decision, log it, and remember an approval for the session.
    RecordDecision { decision: String, approved: bool, status: String, ledger_event: String },
    /// Answer the call if it is a user interaction.
    RunInteraction,
    /// Consult the side-effect log.
    Plan,
    /// Announce and log that the call starts.
    Start,
    /// Execute the call.
    Execute,
    /// Mark the side effect uncertain and log the event.
    MarkUncertain { event_type: String, actor: String, note: LedgerNote },
    /// Mark the side effect failed and log the event.
    MarkFailed { reason: String, event_type: String, note: LedgerNote },
    /// Finalize the staged artifacts of the executor's result.
    Finalize,
    /// Validate the finalized artifacts.
    Validate,
    /// Commit the call's output to the side-effect log.
    Commit { output: Json },
    /// Checkpoint the run with the finalized artifacts.
    Checkpoint,
    /// The call ends with this result.
    Finish(ToolResult),
    /// The event does not belong to this phase; nothing happens.
    Ignore,
}

/// What came of the host's last step.
pub enum ToolCallEvent {
    Begin,
    /// A step that succeeds or fails with an error: the contract check, a
    /// delivery, a ledger or approval record, the approval request, a
    /// commit, a checkpoint.
    Done(Result<(), String>),
    Evaluated(Result<PolicyVerdict, String>),
    StandingGrant(bool),
    Approval(ApprovalStep),
    /// The interaction's result, or `None` when the call is no interaction.
    Interaction(Option<ToolResult>),
    Planned(Result<SideEffectPlan, String>),
    /// The executor returned: the first progress-log failure, whether the
    /// run was cancelled meanwhile, and its result.
    Executed { progress_error: Option<String>, cancelled: bool, result: ToolResult },
    Finalized(Result<Vec<Json>, String>),
    Validated(Result<Json, String>),
}

/// A call's progress through the pipeline.
pub struct ToolCallState {
    pub call_id: String,
    pub unattended: bool,
    pub phase: ToolCallPhase,
    /// The policy, a standing grant or the user cleared the call.
    pub cleared: bool,
    pub allowed: bool,
    pub needs_user: bool,
    pub level: String,
    pub reason: String,
    /// The error the call fails with once the write in flight is done.
    pub pending: String,
    /// The ledger event of the write in flight.
    pub pending_event: String,
    /// The executor's result, once there is one.
    pub result: Option<ToolResult>,
    pub artifacts: Vec<Json>,
    /// The output replayed or committed.
    pub output: Option<Json>,
}

/// The output of a completed call: the executor's output with its
/// artifacts (when there are any) and its validation, when it is an object.
pub open spec fn completed_output(output: JsonView, artifacts: Seq<JsonView>, validation: JsonView) -> JsonView {
    match output {
        JsonView::Object(ms) => JsonView::Object(
            put_member(
                if artifacts.len() > 0 {
                    put_member(ms, "artifacts"@, JsonView::Array(artifacts))
                } else {
                    ms
                },
                "validation"@,
                validation,
            ),
        ),
        other => other,
    }
}

/// The output of a replayed call: the committed result, or `{"ok": true}`.
pub open spec fn replayed_output(result: Option<JsonView>) -> JsonView {
    match result {
        Some(r) => r,
        None => JsonView::Object(seq![("ok"@, JsonView::Bool(true))]),
    }
}

/// Validation failed when it says `ok: false`.
pub open spec fn validation_failed(v: JsonView) -> bool {
    v.bool_field("ok"@) == Some(false)
}

/// The ledger event for a result that carries an error.
pub open spec fn error_event(s: ToolExitState) -> Seq<char> {
    match s {
        ToolExitState::TimedOut => "tool.timed_out"@,
        ToolExitState::Cancelled => "tool.cancelled"@,
        _ => "tool.failed"@,
    }
}

/// A fresh call.
pub fn new_tool_call(call_id: String, unattended: bool) -> (s: ToolCallState)
    ensures
        s.call_id == call_id,
        s.unattended == unattended,
        s.phase == ToolCallPhase::Start,
        !s.cleared,
        s.result is None,
        s.artifacts@.len() == 0,
        s.output is None,
{
    ToolCallState {
        call_id,
        unattended,
        phase: ToolCallPhase::Start,
        cleared: false,
        allowed: false,
        needs_user: false,
        level: String::new(),
        reason: String::new(),
        pending: String::new(),
        pending_event: String::new(),
        result: None,
        artifacts: Vec::new(),
        output: None,
    }
}

/// End the call with a failure.
fn fail(s: ToolCallState, message: String) -> (r: (ToolCallState, ToolCallAction))
    ensures
        !(r.1 is Execute),
        r.0 == (ToolCallState { phase: ToolCallPhase::Done, ..s }),
        r.1 matches ToolCallAction::Finish(t) && is_failure_result(t, s.call_id@, message@),
{
    let t = ToolResult::failure(s.call_id.as_str(), message);
    (ToolCallState { phase: ToolCallPhase::Done, ..s }, ToolCallAction::Finish(t))
}

/// Write a ledger entry, then fail with `primary`.
fn fail_after(s: ToolCallState, primary: String, event_type: &str, actor: &str, note: LedgerNote) -> (r: (
    ToolCallState,
    ToolCallAction,
))
    ensures
        !(r.1 is Execute),
        r.0 == (ToolCallState {
            phase: ToolCallPhase::FailingAfterLedger,
            pending: r.0.pending,
            pending_event: r.0.pending_event,
            ..s
        }),
        r.0.pending@ == primary@,
        r.0.pending_event@ == event_type@,
        r.1 matches ToolCallAction::Ledger { event_type: e, actor: a, note: n } && e@ == event_type@ && a@
            == actor@ && n == note,
{
    let state = ToolCallState {
        phase: ToolCallPhase::FailingAfterLedger,
        pending: primary,
        pending_event: owned(event_type),
        ..s
    };
    (state, ToolCallAction::Ledger { event_type: owned(event_type), actor: owned(actor), note })
}

/// Mark the side effect uncertain, then fail with `primary`.
fn uncertain(s: ToolCallState, primary: String, event_type: &str, actor: &str, note: LedgerNote) -> (r: (
    ToolCallState,
    ToolCallAction,
))
    ensures
        !(r.1 is Execute),
        r.0 == (ToolCallState { phase: ToolCallPhase::MarkingUncertain, pending: r.0.pending, ..s }),
        r.0.pending@ == primary@,
        r.1 matches ToolCallAction::MarkUncertain { event_type: e, actor: a, note: n } && e@ == event_type@
            && a@ == actor@ && n == note,
{
    let state = ToolCallState { phase: ToolCallPhase::MarkingUncertain, pending: primary, ..s };
    (state, ToolCallAction::MarkUncertain { event_type: owned(event_type), actor: owned(actor), note })
}

/// Go to `phase` with `action`.
fn go(s: ToolCallState, phase: ToolCallPhase, action: ToolCallAction) -> (r: (ToolCallState, ToolCallAction))
    ensures
        r.0 == (ToolCallState { phase, ..s }),
        r.1 == action,
{
    (ToolCallState { phase, ..s }, action)
}

/// The output of a completed call.
fn complete_output(output: Json, artifacts: &Vec<Json>, validation: Json) -> (r: Json)
    ensures
        r@ == completed_output(output@, items_view(artifacts@), validation@),
{
    match output {
        Json::Object(members) => {
            let members = if artifacts.len() > 0 {
                proof {
                    crate::json::lemma_items_view(artifacts@);
                }
                put_member_exec(members, "artifacts", Json::Array(crate::json::clone_items(artifacts)))
            } else {
                proof {
                    crate::json::lemma_items_view(artifacts@);
                }
                members
            };
            Json::Object(put_member_exec(members, "validation", validation))
        },
        other => other,
    }
}

// -- Reading the steps ----------------------------------------------------------------

/// The call ends with the failure `message`.
pub open spec fn fails_with(r: (ToolCallState, ToolCallAction), call_id: Seq<char>, message: Seq<char>) -> bool {
    r.0.phase == ToolCallPhase::Done && (r.1 matches ToolCallAction::Finish(t) && is_failure_result(t, call_id, message))
}

/// `a` appends a ledger entry `event_type` by `actor`.
pub open spec fn writes_ledger(a: ToolCallAction, event_type: Seq<char>, actor: Seq<char>) -> bool {
    a matches ToolCallAction::Ledger { event_type: e, actor: x, .. } && e@ == event_type && x@ == actor
}

/// `a` marks the side effect uncertain and logs `event_type` by `actor`.
pub open spec fn marks_uncertain(a: ToolCallAction, event_type: Seq<char>, actor: Seq<char>) -> bool {
    a matches ToolCallAction::MarkUncertain { event_type: e, actor: x, .. } && e@ == event_type && x@ == actor
}

/// What a ledger write of `a` records.
pub open spec fn note_of(a: ToolCallAction) -> LedgerNote {
    match a {
        ToolCallAction::Ledger { note, .. } => note,
        ToolCallAction::MarkUncertain { note, .. } => note,
        ToolCallAction::MarkFailed { note, .. } => note,
        _ => LedgerNote::Call,
    }
}

pub open spec fn is_reason(n: LedgerNote, text: Seq<char>) -> bool {
    n matches LedgerNote::Reason(x) && x@ == text
}

pub open spec fn is_stage(n: LedgerNote, stage: Seq<char>, error: Seq<char>) -> bool {
    n matches LedgerNote::Stage { stage: s, error: e } && s@ == stage && e@ == error
}

/// A ledger entry is written, then the call fails with `primary`.
pub open spec fn logs_then_fails(
    r: (ToolCallState, ToolCallAction),
    primary: Seq<char>,
    event_type: Seq<char>,
    actor: Seq<char>,
) -> bool {
    r.0.phase == ToolCallPhase::FailingAfterLedger && r.0.pending@ == primary && r.0.pending_event@ == event_type
        && writes_ledger(r.1, event_type, actor)
}

/// The side effect is marked uncertain, then the call fails with `primary`.
pub open spec fn uncertain_then_fails(
    r: (ToolCallState, ToolCallAction),
    primary: Seq<char>,
    event_type: Seq<char>,
    actor: Seq<char>,
) -> bool {
    r.0.phase == ToolCallPhase::MarkingUncertain && r.0.pending@ == primary && marks_uncertain(r.1, event_type, actor)
}

/// The call's identity, the run's attendance and the clearance are kept.
pub open spec fn kept(r: ToolCallState, s: ToolCallState) -> bool {
    r.call_id == s.call_id && r.unattended == s.unattended && r.cleared == s.cleared
}

/// An approval decision point is recorded.
pub open spec fn records_approval(
    a: ToolCallAction,
    stage: Seq<char>,
    status: Seq<char>,
    approval: Option<Seq<char>>,
    reason: Seq<char>,
) -> bool {
    a matches ToolCallAction::RecordApproval { stage: s, status: t, approval: p, reason: x } && s@ == stage && t@
        == status && crate::mcp::rpc::text_opt(p) == approval && x@ == reason
}

// -- The steps ------------------------------------------------------------------------

fn on_contract(state: ToolCallState, d: Result<(), String>) -> (r: (ToolCallState, ToolCallAction))
    ensures
        !(r.1 is Execute),
        kept(r.0, state),
        match d {
            Ok(_) => r.0.phase == ToolCallPhase::EvaluatingPolicy && r.1 is EvaluatePolicy,
            Err(e) => logs_then_fails(r, e@, "tool.failed"@, "runtime"@) && is_stage(note_of(r.1), "schema"@, e@),
        },
{
    match d {
        Ok(()) => go(state, ToolCallPhase::EvaluatingPolicy, ToolCallAction::EvaluatePolicy),
        Err(e) => {
            let note = LedgerNote::Stage { stage: owned("schema"), error: e.clone() };
            fail_after(state, e, "tool.failed", "runtime", note)
        },
    }
}

fn on_policy(state: ToolCallState, v: Result<PolicyVerdict, String>) -> (r: (ToolCallState, ToolCallAction))
    ensures
        !(r.1 is Execute),
        kept(r.0, state),
        match v {
            Err(e) => fails_with(r, state.call_id@, e@),
            Ok(p) => r.0.phase == ToolCallPhase::Proposing && r.0.allowed == p.allowed && r.0.needs_user
                == p.needs_user && r.0.level == p.level && r.0.reason == p.reason && (r.1 matches ToolCallAction::Propose {
                level,
            } && level@ == p.level@),
        },
{
    match v {
        Err(e) => fail(state, e),
        Ok(p) => {
            let level = p.level.clone();
            let next = ToolCallState {
                phase: ToolCallPhase::Proposing,
                allowed: p.allowed,
                needs_user: p.needs_user,
                level: p.level,
                reason: p.reason,
                ..state
            };
            (next, ToolCallAction::Propose { level })
        },
    }
}

fn on_proposed(state: ToolCallState, d: Result<(), String>) -> (r: (ToolCallState, ToolCallAction))
    ensures
        !(r.1 is Execute),
        kept(r.0, state),
        r.0.reason == state.reason && r.0.level == state.level && r.0.allowed == state.allowed,
        match d {
            Err(e) => fails_with(r, state.call_id@, e@),
            Ok(_) => if state.allowed {
                r.0.phase == ToolCallPhase::RecordingPolicyClearance && records_approval(
                    r.1,
                    "policy_resolved"@,
                    "auto_approved"@,
                    Some("policy"@),
                    state.reason@,
                )
            } else {
                r.0.phase == ToolCallPhase::CheckingStandingGrant && r.1 is CheckStandingGrant
            },
        },
{
    match d {
        Err(e) => fail(state, e),
        Ok(()) => {
            if state.allowed {
                let reason = state.reason.clone();
                let action = ToolCallAction::RecordApproval {
                    stage: owned("policy_resolved"),
                    status: owned("auto_approved"),
                    approval: Some(owned("policy")),
                    reason,
                };
                go(state, ToolCallPhase::RecordingPolicyClearance, action)
            } else {
                go(state, ToolCallPhase::CheckingStandingGrant, ToolCallAction::CheckStandingGrant)
            }
        },
    }
}

fn on_standing(state: ToolCallState, g: bool) -> (r: (ToolCallState, ToolCallAction))
    ensures
        !(r.1 is Execute),
        kept(r.0, state),
        r.0.reason == state.reason && r.0.level == state.level,
        match approval_route_of(state.allowed, state.needs_user, g) {
            ApprovalRoute::Standing => r.0.phase == ToolCallPhase::RecordingStandingClearance && records_approval(
                r.1,
                "standing_policy_resolved"@,
                "auto_approved"@,
                Some("standing"@),
                "approved by a session-scoped standing grant"@,
            ),
            ApprovalRoute::Denied => r.0.phase == ToolCallPhase::RecordingDenial && records_approval(
                r.1,
                "policy_denied"@,
                "denied"@,
                None,
                state.reason@,
            ),
            ApprovalRoute::AskUser => r.0.phase == ToolCallPhase::RequestingApproval && (r.1 matches ToolCallAction::RequestApproval {
                reason,
                unattended,
                awaiting,
            } && reason@ == state.reason@ && unattended == state.unattended && awaiting == (if state.unattended {
                RuntimeState::WaitingUser
            } else {
                RuntimeState::WaitingApproval
            })),
            ApprovalRoute::Policy => r.0.phase == ToolCallPhase::RecordingPolicyClearance && records_approval(
                r.1,
                "policy_resolved"@,
                "auto_approved"@,
                Some("policy"@),
                state.reason@,
            ),
        },
{
    match approval_route(state.allowed, state.needs_user, g) {
        ApprovalRoute::Standing => {
            let action = ToolCallAction::RecordApproval {
                stage: owned("standing_policy_resolved"),
                status: owned("auto_approved"),
                approval: Some(owned("standing")),
                reason: owned("approved by a session-scoped standing grant"),
            };
            go(state, ToolCallPhase::RecordingStandingClearance, action)
        },
        ApprovalRoute::Denied => {
            let reason = state.reason.clone();
            let action = ToolCallAction::RecordApproval {
                stage: owned("policy_denied"),
                status: owned("denied"),
                approval: None,
                reason,
            };
            go(state, ToolCallPhase::RecordingDenial, action)
        },
        ApprovalRoute::AskUser => {
            let reason = state.reason.clone();
            let unattended = state.unattended;
            let action = ToolCallAction::RequestApproval { reason, unattended, awaiting: awaiting_state(unattended) };
            go(state, ToolCallPhase::RequestingApproval, action)
        },
        ApprovalRoute::Policy => {
            let reason = state.reason.clone();
            let action = ToolCallAction::RecordApproval {
                stage: owned("policy_resolved"),
                status: owned("auto_approved"),
                approval: Some(owned("policy")),
                reason,
            };
            go(state, ToolCallPhase::RecordingPolicyClearance, action)
        },
    }
}

/// The clearance was recorded: the call is cleared and the approval logged.
fn on_cleared(state: ToolCallState, d: Result<(), String>) -> (r: (ToolCallState, ToolCallAction))
    ensures
        !(r.1 is Execute),
        r.0.call_id == state.call_id && r.0.unattended == state.unattended,
        match d {
            Err(e) => kept(r.0, state) && fails_with(r, state.call_id@, e@),
            Ok(_) => r.0.phase == ToolCallPhase::LoggingApproval && r.0.cleared && writes_ledger(
                r.1,
                "tool.approved"@,
                "runtime"@,
            ) && (note_of(r.1) matches LedgerNote::Level(l) && l@ == state.level@),
        },
{
    match d {
        Err(e) => fail(state, e),
        Ok(()) => {
            let level = state.level.clone();
            let next = ToolCallState { phase: ToolCallPhase::LoggingApproval, cleared: true, ..state };
            let action = ToolCallAction::Ledger {
                event_type: owned("tool.approved"),
                actor: owned("runtime"),
                note: LedgerNote::Level(level),
            };
            (next, action)
        },
    }
}

fn on_denial(state: ToolCallState, d: Result<(), String>) -> (r: (ToolCallState, ToolCallAction))
    ensures
        !(r.1 is Execute),
        kept(r.0, state),
        match d {
            Err(e) => fails_with(r, state.call_id@, state.reason@ + "; failed to persist policy denial: "@ + e@),
            Ok(_) => logs_then_fails(r, state.reason@, "tool.failed"@, "runtime"@) && is_stage(
                note_of(r.1),
                "policy"@,
                state.reason@,
            ),
        },
{
    match d {
        Err(e) => {
            let message = concat3(state.reason.as_str(), "; failed to persist policy denial: ", e.as_str());
            fail(state, message)
        },
        Ok(()) => {
            let primary = state.reason.clone();
            let note = LedgerNote::Stage { stage: owned("policy"), error: state.reason.clone() };
            fail_after(state, primary, "tool.failed", "runtime", note)
        },
    }
}

/// A failure of the approval sequence cancels the call.
fn cancel_with(state: ToolCallState, e: String) -> (r: (ToolCallState, ToolCallAction))
    ensures
        !(r.1 is Execute),
        kept(r.0, state),
        logs_then_fails(r, e@, "tool.cancelled"@, "runtime"@) && is_reason(note_of(r.1), e@),
{
    let note = LedgerNote::Reason(e.clone());
    fail_after(state, e, "tool.cancelled", "runtime", note)
}

fn on_requested(state: ToolCallState, d: Result<(), String>) -> (r: (ToolCallState, ToolCallAction))
    ensures
        !(r.1 is Execute),
        kept(r.0, state),
        match d {
            Err(e) => logs_then_fails(r, e@, "tool.cancelled"@, "runtime"@) && is_reason(note_of(r.1), e@),
            Ok(_) => r.0.phase == ToolCallPhase::AwaitingApproval && r.1 is AwaitApproval,
        },
{
    match d {
        Err(e) => cancel_with(state, e),
        Ok(()) => go(state, ToolCallPhase::AwaitingApproval, ToolCallAction::AwaitApproval),
    }
}

fn on_approval(state: ToolCallState, step: ApprovalStep) -> (r: (ToolCallState, ToolCallAction))
    ensures
        !(r.1 is Execute),
        kept(r.0, state),
        match step {
            ApprovalStep::Wait => r.0.phase == ToolCallPhase::AwaitingApproval && r.1 is AwaitApproval,
            ApprovalStep::Cancelled(m) => r.0.phase == ToolCallPhase::RecordingCancellation && r.0.pending == m
                && (r.1 matches ToolCallAction::RecordCancellation { message } && message@ == m@),
            ApprovalStep::Abandoned(m) => logs_then_fails(r, m@, "tool.cancelled"@, "runtime"@) && is_reason(
                note_of(r.1),
                m@,
            ),
            ApprovalStep::Resolved { decision, approved, status, ledger_event } => r.0.phase
                == ToolCallPhase::RecordingDecision && r.0.allowed == approved && r.1
                == ToolCallAction::RecordDecision { decision, approved, status, ledger_event },
        },
{
    match step {
        ApprovalStep::Wait => go(state, ToolCallPhase::AwaitingApproval, ToolCallAction::AwaitApproval),
        ApprovalStep::Cancelled(m) => {
            let message = m.clone();
            let next = ToolCallState { phase: ToolCallPhase::RecordingCancellation, pending: m, ..state };
            (next, ToolCallAction::RecordCancellation { message })
        },
        ApprovalStep::Abandoned(m) => cancel_with(state, m),
        ApprovalStep::Resolved { decision, approved, status, ledger_event } => {
            let next = ToolCallState { phase: ToolCallPhase::RecordingDecision, allowed: approved, ..state };
            (next, ToolCallAction::RecordDecision { decision, approved, status, ledger_event })
        },
    }
}

fn on_cancellation(state: ToolCallState, d: Result<(), String>) -> (r: (ToolCallState, ToolCallAction))
    ensures
        !(r.1 is Execute),
        kept(r.0, state),
        match d {
            Ok(_) => logs_then_fails(r, state.pending@, "tool.cancelled"@, "runtime"@) && is_reason(
                note_of(r.1),
                state.pending@,
            ),
            Err(e) => logs_then_fails(r, e@, "tool.cancelled"@, "runtime"@) && is_reason(note_of(r.1), e@),
        },
{
    let primary = match d {
        Ok(()) => state.pending.clone(),
        Err(e) => e,
    };
    cancel_with(state, primary)
}

fn on_decision(state: ToolCallState, d: Result<(), String>) -> (r: (ToolCallState, ToolCallAction))
    ensures
        !(r.1 is Execute),
        r.0.call_id == state.call_id && r.0.unattended == state.unattended,
        r.0.cleared != state.cleared ==> r.0.cleared && state.allowed,
        match d {
            Err(e) => logs_then_fails(r, e@, "tool.cancelled"@, "runtime"@) && is_reason(note_of(r.1), e@),
            Ok(_) => if state.allowed {
                r.0.phase == ToolCallPhase::LoggingApproval && r.0.cleared && writes_ledger(
                    r.1,
                    "tool.approved"@,
                    "runtime"@,
                ) && (note_of(r.1) matches LedgerNote::Level(l) && l@ == state.level@)
            } else {
                logs_then_fails(r, "tool call denied by user"@, "tool.cancelled"@, "user"@) && is_reason(
                    note_of(r.1),
                    "denied"@,
                )
            },
        },
{
    match d {
        Err(e) => cancel_with(state, e),
        Ok(()) => {
            if state.allowed {
                on_cleared(state, Ok(()))
            } else {
                fail_after(
                    state,
                    owned("tool call denied by user"),
                    "tool.cancelled",
                    "user",
                    LedgerNote::Reason(owned("denied")),
                )
            }
        },
    }
}

fn on_failing(state: ToolCallState, d: Result<(), String>) -> (r: (ToolCallState, ToolCallAction))
    ensures
        !(r.1 is Execute),
        kept(r.0, state),
        fails_with(
            r,
            state.call_id@,
            match d {
                Ok(_) => state.pending@,
                Err(e) => state.pending@ + "; failed to persist "@ + state.pending_event@ + ": "@ + e@,
            },
        ),
{
    let message = match d {
        Ok(()) => state.pending.clone(),
        Err(e) => {
            let head = concat3(state.pending.as_str(), "; failed to persist ", state.pending_event.as_str());
            concat3(head.as_str(), ": ", e.as_str())
        },
    };
    fail(state, message)
}

fn on_plan(state: ToolCallState, p: Result<SideEffectPlan, String>) -> (r: (ToolCallState, ToolCallAction))
    ensures
        !(r.1 is Execute),
        kept(r.0, state),
        match p {
            Err(e) => fails_with(r, state.call_id@, e@),
            Ok(plan) => match plan.kind {
                PlanKind::Replay => r.0.phase == ToolCallPhase::Replaying && (match r.0.output {
                    Some(o) => o@ == replayed_output(crate::runtime::host::json_opt(plan.result)),
                    None => false,
                }) && writes_ledger(r.1, "tool.replayed"@, "runtime"@) && note_of(r.1) is Call,
                PlanKind::Uncertain => r.0.phase == ToolCallPhase::ReportingUncertain && r.0.pending@ == (match plan.error_message {
                    Some(m) => m@,
                    None => "previous tool result is uncertain"@,
                }) && writes_ledger(r.1, "tool.uncertain"@, "runtime"@) && note_of(r.1) == LedgerNote::Operation(
                    plan.operation_id,
                ),
                PlanKind::Execute => r.0.phase == ToolCallPhase::Starting && r.1 is Start,
            },
        },
{
    match p {
        Err(e) => fail(state, e),
        Ok(plan) => match plan.kind {
            PlanKind::Replay => {
                let output = match plan.result {
                    Some(r) => r,
                    None => {
                        let members = vec![(owned("ok"), Json::Bool(true))];
                        proof {
                            crate::json::lemma_members_view(members@);
                            assert(members_view(members@) =~= seq![("ok"@, JsonView::Bool(true))]);
                        }
                        Json::Object(members)
                    },
                };
                let next = ToolCallState { phase: ToolCallPhase::Replaying, output: Some(output), ..state };
                let action = ToolCallAction::Ledger {
                    event_type: owned("tool.replayed"),
                    actor: owned("runtime"),
                    note: LedgerNote::Call,
                };
                (next, action)
            },
            PlanKind::Uncertain => {
                let message = match plan.error_message {
                    Some(m) => m,
                    None => owned("previous tool result is uncertain"),
                };
                let next = ToolCallState { phase: ToolCallPhase::ReportingUncertain, pending: message, ..state };
                let action = ToolCallAction::Ledger {
                    event_type: owned("tool.uncertain"),
                    actor: owned("runtime"),
                    note: LedgerNote::Operation(plan.operation_id),
                };
                (next, action)
            },
            PlanKind::Execute => go(state, ToolCallPhase::Starting, ToolCallAction::Start),
        },
    }
}

fn on_replayed(state: ToolCallState, d: Result<(), String>) -> (r: (ToolCallState, ToolCallAction))
    ensures
        !(r.1 is Execute),
        r.0.call_id == state.call_id && r.0.unattended == state.unattended && r.0.cleared == state.cleared,
        r.0.phase == ToolCallPhase::Done,
        match d {
            Ok(_) => r.1 matches ToolCallAction::Finish(t) && t.tool_call_id@ == state.call_id@ && t.state
                == ToolExitState::Completed && t.error is None && (state.output matches Some(o) ==> t.output == o),
            Err(e) => fails_with(
                r,
                state.call_id@,
                "committed result exists but tool.replayed could not be persisted: "@ + e@,
            ),
        },
{
    match d {
        Ok(()) => {
            let id = state.call_id.clone();
            let mut state = state;
            let t = match state.output.take() {
                Some(o) => ToolResult::success(id.as_str(), o),
                None => ToolResult::success(id.as_str(), Json::Null),
            };
            (ToolCallState { phase: ToolCallPhase::Done, ..state }, ToolCallAction::Finish(t))
        },
        Err(e) => {
            let message = concat2("committed result exists but tool.replayed could not be persisted: ", e.as_str());
            fail(state, message)
        },
    }
}

fn on_uncertain_reported(state: ToolCallState, d: Result<(), String>) -> (r: (ToolCallState, ToolCallAction))
    ensures
        !(r.1 is Execute),
        kept(r.0, state),
        fails_with(
            r,
            state.call_id@,
            match d {
                Ok(_) => state.pending@,
                Err(e) => state.pending@ + "; failed to persist tool.uncertain: "@ + e@,
            },
        ),
{
    let message = match d {
        Ok(()) => state.pending.clone(),
        Err(e) => concat3(state.pending.as_str(), "; failed to persist tool.uncertain: ", e.as_str()),
    };
    fail(state, message)
}

fn on_started(state: ToolCallState, d: Result<(), String>) -> (r: (ToolCallState, ToolCallAction))
    ensures
        kept(r.0, state),
        r.1 is Execute ==> state.cleared,
        match d {
            Err(e) => fails_with(r, state.call_id@, e@),
            Ok(_) => state.cleared ==> r.0.phase == ToolCallPhase::Executing && r.1 is Execute,
        },
{
    match d {
        Err(e) => fail(state, e),
        Ok(()) => {
            if state.cleared {
                go(state, ToolCallPhase::Executing, ToolCallAction::Execute)
            } else {
                fail(state, owned("tool call was not cleared for execution"))
            }
        },
    }
}

fn on_executed(state: ToolCallState, progress_error: Option<String>, cancelled: bool, result: ToolResult) -> (r: (
    ToolCallState,
    ToolCallAction,
))
    ensures
        !(r.1 is Execute),
        kept(r.0, state),
        match progress_error {
            Some(p) => uncertain_then_fails(
                r,
                "tool progress ledger persistence failed after execution started; outcome is uncertain: "@ + p@,
                "tool.uncertain"@,
                "runtime"@,
            ) && note_of(r.1) == LedgerNote::ProgressFailed(p),
            None => if cancelled {
                uncertain_then_fails(r, "tool cancelled; side effect is uncertain"@, "tool.cancelled"@, "user"@)
                    && note_of(r.1) is CancelledUncertain
            } else {
                match result.error {
                    Some(err) => r.0.phase == ToolCallPhase::SettlingError && r.0.pending@ == err@ && r.0.result
                        == Some(result) && (note_of(r.1) matches LedgerNote::Failure { error, state: s } && error@
                        == err@ && s == result.state) && if result.state == ToolExitState::TimedOut || result.state
                        == ToolExitState::Cancelled {
                        marks_uncertain(r.1, error_event(result.state), "runtime"@)
                    } else {
                        r.1 matches ToolCallAction::MarkFailed { reason, event_type, .. } && reason@ == err@
                            && event_type@ == "tool.failed"@
                    },
                    None => r.0.phase == ToolCallPhase::Finalizing && r.0.result == Some(result) && r.1 is Finalize,
                }
            },
        },
{
    match progress_error {
        Some(p) => {
            let primary = concat2(
                "tool progress ledger persistence failed after execution started; outcome is uncertain: ",
                p.as_str(),
            );
            uncertain(state, primary, "tool.uncertain", "runtime", LedgerNote::ProgressFailed(p))
        },
        None => {
            if cancelled {
                uncertain(
                    state,
                    owned("tool cancelled; side effect is uncertain"),
                    "tool.cancelled",
                    "user",
                    LedgerNote::CancelledUncertain,
                )
            } else {
                match &result.error {
                    Some(err) => {
                        let exit = result.state;
                        let note = LedgerNote::Failure { error: err.clone(), state: exit };
                        let pending = err.clone();
                        let reason = err.clone();
                        let next = ToolCallState {
                            phase: ToolCallPhase::SettlingError,
                            pending,
                            result: Some(result),
                            ..state
                        };
                        let action = match exit {
                            ToolExitState::TimedOut => ToolCallAction::MarkUncertain {
                                event_type: owned("tool.timed_out"),
                                actor: owned("runtime"),
                                note,
                            },
                            ToolExitState::Cancelled => ToolCallAction::MarkUncertain {
                                event_type: owned("tool.cancelled"),
                                actor: owned("runtime"),
                                note,
                            },
                            _ => ToolCallAction::MarkFailed { reason, event_type: owned("tool.failed"), note },
                        };
                        (next, action)
                    },
                    None => {
                        let next = ToolCallState { phase: ToolCallPhase::Finalizing, result: Some(result), ..state };
                        (next, ToolCallAction::Finalize)
                    },
                }
            }
        },
    }
}

fn on_marked(state: ToolCallState, d: Result<(), String>) -> (r: (ToolCallState, ToolCallAction))
    ensures
        !(r.1 is Execute),
        kept(r.0, state),
        fails_with(
            r,
            state.call_id@,
            match d {
                Ok(_) => state.pending@,
                Err(e) => state.pending@ + "; "@ + e@,
            },
        ),
{
    let message = match d {
        Ok(()) => state.pending.clone(),
        Err(e) => concat3(state.pending.as_str(), "; ", e.as_str()),
    };
    fail(state, message)
}

fn on_settled(state: ToolCallState, d: Result<(), String>) -> (r: (ToolCallState, ToolCallAction))
    ensures
        !(r.1 is Execute),
        r.0.call_id == state.call_id && r.0.unattended == state.unattended && r.0.cleared == state.cleared,
        r.0.phase == ToolCallPhase::Done,
        match d {
            Ok(_) => state.result matches Some(res) ==> r.1 == ToolCallAction::Finish(res),
            Err(e) => fails_with(r, state.call_id@, state.pending@ + "; "@ + e@),
        },
{
    match d {
        Ok(()) => {
            let mut state = state;
            match state.result.take() {
                Some(res) => (ToolCallState { phase: ToolCallPhase::Done, ..state }, ToolCallAction::Finish(res)),
                None => fail(state, owned("tool result is missing")),
            }
        },
        Err(e) => {
            let message = concat3(state.pending.as_str(), "; ", e.as_str());
            fail(state, message)
        },
    }
}

fn on_finalized(state: ToolCallState, f: Result<Vec<Json>, String>) -> (r: (ToolCallState, ToolCallAction))
    ensures
        !(r.1 is Execute),
        kept(r.0, state),
        match f {
            Err(e) => uncertain_then_fails(
                r,
                e@ + "; capability execution completed but artifact finalization did not reach a trusted terminal state"@,
                "tool.uncertain"@,
                "runtime"@,
            ) && is_stage(note_of(r.1), "artifact"@, e@),
            Ok(a) => r.0.phase == ToolCallPhase::Validating && r.0.artifacts == a && r.0.result == state.result
                && r.1 is Validate,
        },
{
    match f {
        Err(e) => {
            let primary = concat2(
                e.as_str(),
                "; capability execution completed but artifact finalization did not reach a trusted terminal state",
            );
            let note = LedgerNote::Stage { stage: owned("artifact"), error: e };
            uncertain(state, primary, "tool.uncertain", "runtime", note)
        },
        Ok(a) => (ToolCallState { phase: ToolCallPhase::Validating, artifacts: a, ..state }, ToolCallAction::Validate),
    }
}

fn on_validated(state: ToolCallState, v: Result<Json, String>) -> (r: (ToolCallState, ToolCallAction))
    ensures
        !(r.1 is Execute),
        kept(r.0, state),
        r.0.result == state.result,
        match v {
            Err(e) => uncertain_then_fails(
                r,
                e@
                    + "; capability execution completed but validation persistence did not reach a trusted terminal state"@,
                "tool.uncertain"@,
                "runtime"@,
            ) && is_stage(note_of(r.1), "validation"@, e@),
            Ok(val) => if validation_failed(val@) {
                uncertain_then_fails(
                    r,
                    "tool artifact validation failed; capability execution completed but validation did not reach a trusted terminal state"@,
                    "tool.uncertain"@,
                    "runtime"@,
                ) && (note_of(r.1) matches LedgerNote::ValidationFailed { error, validation } && error@
                    == "tool artifact validation failed"@ && validation == val)
            } else {
                match state.result {
                    Some(res) => r.0.phase == ToolCallPhase::Committing && match r.0.output {
                        Some(o) => o@ == completed_output(res.output@, items_view(state.artifacts@), val@) && (r.1 matches ToolCallAction::Commit {
                            output,
                        } && output@ == o@),
                        None => false,
                    },
                    None => r.0.phase == ToolCallPhase::Done,
                }
            },
        },
{
    match v {
        Err(e) => {
            let primary = concat2(
                e.as_str(),
                "; capability execution completed but validation persistence did not reach a trusted terminal state",
            );
            let note = LedgerNote::Stage { stage: owned("validation"), error: e };
            uncertain(state, primary, "tool.uncertain", "runtime", note)
        },
        Ok(val) => {
            if val.bool_field("ok") == Some(false) {
                let primary = owned(
                    "tool artifact validation failed; capability execution completed but validation did not reach a trusted terminal state",
                );
                let note = LedgerNote::ValidationFailed { error: owned("tool artifact validation failed"), validation: val };
                uncertain(state, primary, "tool.uncertain", "runtime", note)
            } else {
                let merged = match &state.result {
                    Some(res) => Some(complete_output(res.output.deep_clone(), &state.artifacts, val)),
                    None => None,
                };
                match merged {
                    Some(output) => {
                        let committed = output.deep_clone();
                        let next = ToolCallState { phase: ToolCallPhase::Committing, output: Some(output), ..state };
                        (next, ToolCallAction::Commit { output: committed })
                    },
                    None => fail(state, owned("tool result is missing")),
                }
            }
        },
    }
}

fn on_committed(state: ToolCallState, d: Result<(), String>) -> (r: (ToolCallState, ToolCallAction))
    ensures
        !(r.1 is Execute),
        kept(r.0, state),
        match d {
            Err(e) => uncertain_then_fails(
                r,
                "tool result commit failed after capability execution; outcome is uncertain: "@ + e@,
                "tool.uncertain"@,
                "runtime"@,
            ) && note_of(r.1) == LedgerNote::CommitFailed(e),
            Ok(_) => r.0 == (ToolCallState { phase: ToolCallPhase::LoggingCompletion, ..state }) && writes_ledger(
                r.1,
                "tool.completed"@,
                "runtime"@,
            ) && (state.output matches Some(o) ==> (note_of(r.1) matches LedgerNote::Completed(c) && c@ == o@)),
        },
{
    match d {
        Err(e) => {
            let primary = concat2("tool result commit failed after capability execution; outcome is uncertain: ", e.as_str());
            uncertain(state, primary, "tool.uncertain", "runtime", LedgerNote::CommitFailed(e))
        },
        Ok(()) => {
            let note = match &state.output {
                Some(o) => LedgerNote::Completed(o.deep_clone()),
                None => LedgerNote::Completed(Json::Null),
            };
            let action = ToolCallAction::Ledger { event_type: owned("tool.completed"), actor: owned("runtime"), note };
            go(state, ToolCallPhase::LoggingCompletion, action)
        },
    }
}

fn on_logged(state: ToolCallState, d: Result<(), String>, next_phase: ToolCallPhase, next: ToolCallAction) -> (r: (
    ToolCallState,
    ToolCallAction,
))
    ensures
        r.1 is Execute ==> next is Execute,
        kept(r.0, state),
        match d {
            Err(e) => fails_with(r, state.call_id@, e@),
            Ok(_) => r.0 == (ToolCallState { phase: next_phase, ..state }) && r.1 == next,
        },
{
    match d {
        Err(e) => fail(state, e),
        Ok(()) => go(state, next_phase, next),
    }
}

fn on_checkpointed(state: ToolCallState, d: Result<(), String>) -> (r: (ToolCallState, ToolCallAction))
    ensures
        !(r.1 is Execute),
        kept(r.0, state),
        r.0.phase == ToolCallPhase::Done,
        match d {
            Err(e) => fails_with(r, state.call_id@, e@),
            Ok(_) => match (state.result, state.output) {
                (Some(res), Some(o)) => r.1 == ToolCallAction::Finish(ToolResult { output: o, ..res }),
                _ => true,
            },
        },
{
    match d {
        Err(e) => fail(state, e),
        Ok(()) => {
            let mut state = state;
            let res = state.result.take();
            let out = state.output.take();
            match (res, out) {
                (Some(res), Some(o)) => {
                    let t = ToolResult { output: o, ..res };
                    (ToolCallState { phase: ToolCallPhase::Done, ..state }, ToolCallAction::Finish(t))
                },
                _ => fail(state, owned("tool result is missing")),
            }
        },
    }
}

/// The next step of a call, given what came of the last one. Each phase
/// answers one kind of event; any other event is ignored.
#[verifier::spinoff_prover]
#[verifier::rlimit(100)]
pub fn tool_call_step(state: ToolCallState, event: ToolCallEvent) -> (r: (ToolCallState, ToolCallAction))
    ensures
        r.0.call_id == state.call_id,
        r.0.unattended == state.unattended,
        // Nothing is executed unless it is cleared.
        r.1 is Execute ==> state.cleared && state.phase == ToolCallPhase::Starting,
        // Only the policy, a standing grant or an approving user clears a call.
        r.0.cleared != state.cleared ==> r.0.cleared && (state.phase == ToolCallPhase::RecordingPolicyClearance
            || state.phase == ToolCallPhase::RecordingStandingClearance || (state.phase
            == ToolCallPhase::RecordingDecision && state.allowed)),
        state.phase == ToolCallPhase::Done ==> r.1 is Ignore,
        state.phase == ToolCallPhase::Start ==> (event is Begin ==> r.0.phase == ToolCallPhase::CheckingContract
            && r.1 is CheckContract),
        state.phase == ToolCallPhase::CheckingContract ==> (event matches ToolCallEvent::Done(d) ==> match d {
            Ok(_) => r.0.phase == ToolCallPhase::EvaluatingPolicy && r.1 is EvaluatePolicy,
            Err(e) => logs_then_fails(r, e@, "tool.failed"@, "runtime"@) && is_stage(note_of(r.1), "schema"@, e@),
        }),
        state.phase == ToolCallPhase::EvaluatingPolicy ==> (event matches ToolCallEvent::Evaluated(v) ==> match v {
            Err(e) => fails_with(r, state.call_id@, e@),
            Ok(p) => r.0.phase == ToolCallPhase::Proposing && r.0.allowed == p.allowed && r.0.needs_user
                == p.needs_user && r.0.level == p.level && r.0.reason == p.reason && (r.1 matches ToolCallAction::Propose {
                level,
            } && level@ == p.level@),
        }),
        state.phase == ToolCallPhase::Proposing ==> (event matches ToolCallEvent::Done(d) ==> match d {
            Err(e) => fails_with(r, state.call_id@, e@),
            Ok(_) => if state.allowed {
                r.0.phase == ToolCallPhase::RecordingPolicyClearance && records_approval(
                    r.1,
                    "policy_resolved"@,
                    "auto_approved"@,
                    Some("policy"@),
                    state.reason@,
                )
            } else {
                r.0.phase == ToolCallPhase::CheckingStandingGrant && r.1 is CheckStandingGrant
            },
        }),
        state.phase == ToolCallPhase::CheckingStandingGrant ==> (event matches ToolCallEvent::StandingGrant(g)
            ==> match approval_route_of(state.allowed, state.needs_user, g) {
            ApprovalRoute::Standing => r.0.phase == ToolCallPhase::RecordingStandingClearance && records_approval(
                r.1,
                "standing_policy_resolved"@,
                "auto_approved"@,
                Some("standing"@),
                "approved by a session-scoped standing grant"@,
            ),
            ApprovalRoute::Denied => r.0.phase == ToolCallPhase::RecordingDenial && records_approval(
                r.1,
                "policy_denied"@,
                "denied"@,
                None,
                state.reason@,
            ),
            ApprovalRoute::AskUser => r.0.phase == ToolCallPhase::RequestingApproval && (r.1 matches ToolCallAction::RequestApproval {
                reason,
                unattended,
                awaiting,
            } && reason@ == state.reason@ && unattended == state.unattended && awaiting == (if state.unattended {
                RuntimeState::WaitingUser
            } else {
                RuntimeState::WaitingApproval
            })),
            ApprovalRoute::Policy => r.0.phase == ToolCallPhase::RecordingPolicyClearance,
        }),
        (state.phase == ToolCallPhase::RecordingPolicyClearance || state.phase
            == ToolCallPhase::RecordingStandingClearance) ==> (event matches ToolCallEvent::Done(d) ==> match d {
            Err(e) => fails_with(r, state.call_id@, e@),
            Ok(_) => r.0.phase == ToolCallPhase::LoggingApproval && r.0.cleared && writes_ledger(
                r.1,
                "tool.approved"@,
                "runtime"@,
            ) && (note_of(r.1) matches LedgerNote::Level(l) && l@ == state.level@),
        }),
        state.phase == ToolCallPhase::RecordingDenial ==> (event matches ToolCallEvent::Done(d) ==> match d {
            Err(e) => fails_with(r, state.call_id@, state.reason@ + "; failed to persist policy denial: "@ + e@),
            Ok(_) => logs_then_fails(r, state.reason@, "tool.failed"@, "runtime"@) && is_stage(
                note_of(r.1),
                "policy"@,
                state.reason@,
            ),
        }),
        state.phase == ToolCallPhase::RequestingApproval ==> (event matches ToolCallEvent::Done(d) ==> match d {
            Err(e) => logs_then_fails(r, e@, "tool.cancelled"@, "runtime"@) && is_reason(note_of(r.1), e@),
            Ok(_) => r.0.phase == ToolCallPhase::AwaitingApproval && r.1 is AwaitApproval,
        }),
        state.phase == ToolCallPhase::AwaitingApproval ==> (event matches ToolCallEvent::Approval(step) ==> match step {
            ApprovalStep::Wait => r.0.phase == ToolCallPhase::AwaitingApproval && r.1 is AwaitApproval,
            ApprovalStep::Cancelled(m) => r.0.phase == ToolCallPhase::RecordingCancellation && r.0.pending == m
                && (r.1 matches ToolCallAction::RecordCancellation { message } && message@ == m@),
            ApprovalStep::Abandoned(m) => logs_then_fails(r, m@, "tool.cancelled"@, "runtime"@) && is_reason(
                note_of(r.1),
                m@,
            ),
            ApprovalStep::Resolved { decision, approved, status, ledger_event } => r.0.phase
                == ToolCallPhase::RecordingDecision && r.0.allowed == approved && r.1
                == ToolCallAction::RecordDecision { decision, approved, status, ledger_event },
        }),
        state.phase == ToolCallPhase::RecordingCancellation ==> (event matches ToolCallEvent::Done(d) ==> match d {
            Ok(_) => logs_then_fails(r, state.pending@, "tool.cancelled"@, "runtime"@) && is_reason(
                note_of(r.1),
                state.pending@,
            ),
            Err(e) => logs_then_fails(r, e@, "tool.cancelled"@, "runtime"@) && is_reason(note_of(r.1), e@),
        }),
        state.phase == ToolCallPhase::RecordingDecision ==> (event matches ToolCallEvent::Done(d) ==> match d {
            Err(e) => logs_then_fails(r, e@, "tool.cancelled"@, "runtime"@) && is_reason(note_of(r.1), e@),
            Ok(_) => if state.allowed {
                r.0.phase == ToolCallPhase::LoggingApproval && r.0.cleared && writes_ledger(
                    r.1,
                    "tool.approved"@,
                    "runtime"@,
                ) && (note_of(r.1) matches LedgerNote::Level(l) && l@ == state.level@)
            } else {
                logs_then_fails(r, "tool call denied by user"@, "tool.cancelled"@, "user"@) && is_reason(
                    note_of(r.1),
                    "denied"@,
                )
            },
        }),
        state.phase == ToolCallPhase::FailingAfterLedger ==> (event matches ToolCallEvent::Done(d) ==> fails_with(
            r,
            state.call_id@,
            match d {
                Ok(_) => state.pending@,
                Err(e) => state.pending@ + "; failed to persist "@ + state.pending_event@ + ": "@ + e@,
            },
        )),
        state.phase == ToolCallPhase::LoggingApproval ==> (event matches ToolCallEvent::Done(d) ==> match d {
            Err(e) => fails_with(r, state.call_id@, e@),
            Ok(_) => r.0.phase == ToolCallPhase::Interacting && r.1 is RunInteraction,
        }),
        state.phase == ToolCallPhase::Interacting ==> (event matches ToolCallEvent::Interaction(i) ==> match i {
            Some(t) => r.0.phase == ToolCallPhase::Done && r.1 == ToolCallAction::Finish(t),
            None => r.0.phase == ToolCallPhase::Planning && r.1 is Plan,
        }),
        state.phase == ToolCallPhase::Planning ==> (event matches ToolCallEvent::Planned(p) ==> match p {
            Err(e) => fails_with(r, state.call_id@, e@),
            Ok(plan) => match plan.kind {
                PlanKind::Replay => r.0.phase == ToolCallPhase::Replaying && (match r.0.output {
                    Some(o) => o@ == replayed_output(crate::runtime::host::json_opt(plan.result)),
                    None => false,
                }) && writes_ledger(r.1, "tool.replayed"@, "runtime"@),
                PlanKind::Uncertain => r.0.phase == ToolCallPhase::ReportingUncertain && r.0.pending@ == (match plan.error_message {
                    Some(m) => m@,
                    None => "previous tool result is uncertain"@,
                }) && writes_ledger(r.1, "tool.uncertain"@, "runtime"@) && note_of(r.1) == LedgerNote::Operation(
                    plan.operation_id,
                ),
                PlanKind::Execute => r.0.phase == ToolCallPhase::Starting && r.1 is Start,
            },
        }),
        state.phase == ToolCallPhase::Replaying ==> (event matches ToolCallEvent::Done(d) ==> r.0.phase
            == ToolCallPhase::Done && match d {
            Ok(_) => r.1 matches ToolCallAction::Finish(t) && t.tool_call_id@ == state.call_id@ && t.state
                == ToolExitState::Completed && t.error is None && (state.output matches Some(o) ==> t.output == o),
            Err(e) => fails_with(
                r,
                state.call_id@,
                "committed result exists but tool.replayed could not be persisted: "@ + e@,
            ),
        }),
        state.phase == ToolCallPhase::ReportingUncertain ==> (event matches ToolCallEvent::Done(d) ==> fails_with(
            r,
            state.call_id@,
            match d {
                Ok(_) => state.pending@,
                Err(e) => state.pending@ + "; failed to persist tool.uncertain: "@ + e@,
            },
        )),
        state.phase == ToolCallPhase::Starting ==> (event matches ToolCallEvent::Done(d) ==> match d {
            Err(e) => fails_with(r, state.call_id@, e@),
            Ok(_) => state.cleared ==> r.0.phase == ToolCallPhase::Executing && r.1 is Execute,
        }),
        state.phase == ToolCallPhase::Executing ==> (event matches ToolCallEvent::Executed {
            progress_error,
            cancelled,
            result,
        } ==> match progress_error {
            Some(p) => uncertain_then_fails(
                r,
                "tool progress ledger persistence failed after execution started; outcome is uncertain: "@ + p@,
                "tool.uncertain"@,
                "runtime"@,
            ) && note_of(r.1) == LedgerNote::ProgressFailed(p),
            None => if cancelled {
                uncertain_then_fails(r, "tool cancelled; side effect is uncertain"@, "tool.cancelled"@, "user"@)
                    && note_of(r.1) is CancelledUncertain
            } else {
                match result.error {
                    Some(err) => r.0.phase == ToolCallPhase::SettlingError && r.0.pending@ == err@ && r.0.result
                        == Some(result) && (note_of(r.1) matches LedgerNote::Failure { error, state: s } && error@
                        == err@ && s == result.state) && if result.state == ToolExitState::TimedOut || result.state
                        == ToolExitState::Cancelled {
                        marks_uncertain(r.1, error_event(result.state), "runtime"@)
                    } else {
                        r.1 matches ToolCallAction::MarkFailed { reason, event_type, .. } && reason@ == err@
                            && event_type@ == "tool.failed"@
                    },
                    None => r.0.phase == ToolCallPhase::Finalizing && r.0.result == Some(result) && r.1 is Finalize,
                }
            },
        }),
        state.phase == ToolCallPhase::MarkingUncertain ==> (event matches ToolCallEvent::Done(d) ==> fails_with(
            r,
            state.call_id@,
            match d {
                Ok(_) => state.pending@,
                Err(e) => state.pending@ + "; "@ + e@,
            },
        )),
        state.phase == ToolCallPhase::SettlingError ==> (event matches ToolCallEvent::Done(d) ==> r.0.phase
            == ToolCallPhase::Done && match d {
            Ok(_) => state.result matches Some(res) ==> r.1 == ToolCallAction::Finish(res),
            Err(e) => fails_with(r, state.call_id@, state.pending@ + "; "@ + e@),
        }),
        state.phase == ToolCallPhase::Finalizing ==> (event matches ToolCallEvent::Finalized(f) ==> match f {
            Err(e) => uncertain_then_fails(
                r,
                e@ + "; capability execution completed but artifact finalization did not reach a trusted terminal state"@,
                "tool.uncertain"@,
                "runtime"@,
            ) && is_stage(note_of(r.1), "artifact"@, e@),
            Ok(a) => r.0.phase == ToolCallPhase::Validating && r.0.artifacts == a && r.0.result == state.result
                && r.1 is Validate,
        }),
        state.phase == ToolCallPhase::Validating ==> (event matches ToolCallEvent::Validated(v) ==> match v {
            Err(e) => uncertain_then_fails(
                r,
                e@
                    + "; capability execution completed but validation persistence did not reach a trusted terminal state"@,
                "tool.uncertain"@,
                "runtime"@,
            ) && is_stage(note_of(r.1), "validation"@, e@),
            Ok(val) => if validation_failed(val@) {
                uncertain_then_fails(
                    r,
                    "tool artifact validation failed; capability execution completed but validation did not reach a trusted terminal state"@,
                    "tool.uncertain"@,
                    "runtime"@,
                ) && (note_of(r.1) matches LedgerNote::ValidationFailed { error, validation } && error@
                    == "tool artifact validation failed"@ && validation == val)
            } else {
                match state.result {
                    Some(res) => r.0.phase == ToolCallPhase::Committing && match r.0.output {
                        Some(o) => o@ == completed_output(res.output@, items_view(state.artifacts@), val@) && (r.1 matches ToolCallAction::Commit {
                            output,
                        } && output@ == o@),
                        None => false,
                    },
                    None => r.0.phase == ToolCallPhase::Done,
                }
            },
        }),
        state.phase == ToolCallPhase::Committing ==> (event matches ToolCallEvent::Done(d) ==> match d {
            Err(e) => uncertain_then_fails(
                r,
                "tool result commit failed after capability execution; outcome is uncertain: "@ + e@,
                "tool.uncertain"@,
                "runtime"@,
            ) && note_of(r.1) == LedgerNote::CommitFailed(e),
            Ok(_) => r.0 == (ToolCallState { phase: ToolCallPhase::LoggingCompletion, ..state }) && writes_ledger(
                r.1,
                "tool.completed"@,
                "runtime"@,
            ) && (state.output matches Some(o) ==> (note_of(r.1) matches LedgerNote::Completed(c) && c@ == o@)),
        }),
        state.phase == ToolCallPhase::LoggingCompletion ==> (event matches ToolCallEvent::Done(d) ==> match d {
            Err(e) => fails_with(r, state.call_id@, e@),
            Ok(_) => r.0 == (ToolCallState { phase: ToolCallPhase::Checkpointing, ..state }) && r.1 is Checkpoint,
        }),
        state.phase == ToolCallPhase::Checkpointing ==> (event matches ToolCallEvent::Done(d) ==> r.0.phase
            == ToolCallPhase::Done && match d {
            Err(e) => fails_with(r, state.call_id@, e@),
            Ok(_) => match (state.result, state.output) {
                (Some(res), Some(o)) => r.1 == ToolCallAction::Finish(ToolResult { output: o, ..res }),
                _ => true,
            },
        }),
{
    let phase = state.phase;
    match (phase, event) {
        (ToolCallPhase::Start, ToolCallEvent::Begin) => go(
            state,
            ToolCallPhase::CheckingContract,
            ToolCallAction::CheckContract,
        ),
        (ToolCallPhase::CheckingContract, ToolCallEvent::Done(d)) => on_contract(state, d),
        (ToolCallPhase::EvaluatingPolicy, ToolCallEvent::Evaluated(v)) => on_policy(state, v),
        (ToolCallPhase::Proposing, ToolCallEvent::Done(d)) => on_proposed(state, d),
        (ToolCallPhase::CheckingStandingGrant, ToolCallEvent::StandingGrant(g)) => on_standing(state, g),
        (ToolCallPhase::RecordingPolicyClearance, ToolCallEvent::Done(d)) => on_cleared(state, d),
        (ToolCallPhase::RecordingStandingClearance, ToolCallEvent::Done(d)) => on_cleared(state, d),
        (ToolCallPhase::RecordingDenial, ToolCallEvent::Done(d)) => on_denial(state, d),
        (ToolCallPhase::RequestingApproval, ToolCallEvent::Done(d)) => on_requested(state, d),
        (ToolCallPhase::AwaitingApproval, ToolCallEvent::Approval(step)) => on_approval(state, step),
        (ToolCallPhase::RecordingCancellation, ToolCallEvent::Done(d)) => on_cancellation(state, d),
        (ToolCallPhase::RecordingDecision, ToolCallEvent::Done(d)) => on_decision(state, d),
        (ToolCallPhase::FailingAfterLedger, ToolCallEvent::Done(d)) => on_failing(state, d),
        (ToolCallPhase::LoggingApproval, ToolCallEvent::Done(d)) => on_logged(
            state,
            d,
            ToolCallPhase::Interacting,
            ToolCallAction::RunInteraction,
        ),
        (ToolCallPhase::Interacting, ToolCallEvent::Interaction(i)) => match i {
            Some(t) => go(state, ToolCallPhase::Done, ToolCallAction::Finish(t)),
            None => go(state, ToolCallPhase::Planning, ToolCallAction::Plan),
        },
        (ToolCallPhase::Planning, ToolCallEvent::Planned(p)) => on_plan(state, p),
        (ToolCallPhase::Replaying, ToolCallEvent::Done(d)) => on_replayed(state, d),
        (ToolCallPhase::ReportingUncertain, ToolCallEvent::Done(d)) => on_uncertain_reported(state, d),
        (ToolCallPhase::Starting, ToolCallEvent::Done(d)) => on_started(state, d),
        (ToolCallPhase::Executing, ToolCallEvent::Executed { progress_error, cancelled, result }) => on_executed(
            state,
            progress_error,
            cancelled,
            result,
        ),
        (ToolCallPhase::MarkingUncertain, ToolCallEvent::Done(d)) => on_marked(state, d),
        (ToolCallPhase::SettlingError, ToolCallEvent::Done(d)) => on_settled(state, d),
        (ToolCallPhase::Finalizing, ToolCallEvent::Finalized(f)) => on_finalized(state, f),
        (ToolCallPhase::Validating, ToolCallEvent::Validated(v)) => on_validated(state, v),
        (ToolCallPhase::Committing, ToolCallEvent::Done(d)) => on_committed(state, d),
        (ToolCallPhase::LoggingCompletion, ToolCallEvent::Done(d)) => on_logged(
            state,
            d,
            ToolCallPhase::Checkpointing,
            ToolCallAction::Checkpoint,
        ),
        (ToolCallPhase::Checkpointing, ToolCallEvent::Done(d)) => on_checkpointed(state, d),
        (_, _) => (state, ToolCallAction::Ignore),
    }
}

/// The route of a call the policy does not clear outright.
pub open spec fn approval_route_of(allowed: bool, needs_user: bool, standing_grant: bool) -> ApprovalRoute {
    if allowed {
        ApprovalRoute::Policy
    } else if standing_grant {
        ApprovalRoute::Standing
    } else if !needs_user {
        ApprovalRoute::Denied
    } else {
        ApprovalRoute::AskUser
    }
}

} // verus!
