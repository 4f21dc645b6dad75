//! The decisions of the approval boundary and of the user-interaction wait.
//!
//! A tool call the policy does not allow outright either rides on a
//! standing grant, is refused, or waits for the user. While a run waits for
//! an approval or an answer, the host polls: each poll it reports whether
//! the run was cancelled and what arrived, and the step below says whether
//! to keep waiting or how the wait ends. The policy itself and the approval
//! and inbox records are the host's; what it decided comes in here as plain
//! values.

use vstd::prelude::*;

use crate::json::Json;
use crate::runtime::control::RuntimeState;
use crate::runtime::tools::{failure_output, ToolExitState, ToolResult};
use crate::text::{concat2, owned};

verus! {

/// How a proposed tool call is cleared.
#[derive(Debug, Clone, Copy, PartialEq, Eq, Structural)]
pub enum ApprovalRoute {
    /// The policy allows it.
    Policy,
    /// The policy does not, but a standing grant of the session covers it.
    Standing,
    /// The policy refuses it outright.
    Denied,
    /// The user must decide.
    AskUser,
}

/// The route of a call, given the policy's verdict (`allowed`, and whether a
/// refusal may be overridden by the user) and whether a standing grant
/// covers it. A standing grant is consulted only for a call the policy does
/// not allow.
pub fn approval_route(allowed: bool, needs_user: bool, standing_grant: bool) -> (r: ApprovalRoute)
    ensures
        allowed ==> r == ApprovalRoute::Policy,
        !allowed && standing_grant ==> r == ApprovalRoute::Standing,
        !allowed && !standing_grant && !needs_user ==> r == ApprovalRoute::Denied,
        !allowed && !standing_grant && needs_user ==> r == ApprovalRoute::AskUser,
{
    if allowed {
        ApprovalRoute::Policy
    } else if standing_grant {
        ApprovalRoute::Standing
    } else if !needs_user {
        ApprovalRoute::Denied
    } else {
        ApprovalRoute::AskUser
    }
}

/// The state a run shows while it waits for an approval: an unattended run
/// parks the request in the inbox and waits for a user; otherwise it waits
/// for the approval itself.
pub fn awaiting_state(unattended: bool) -> (s: RuntimeState)
    ensures
        unattended ==> s == RuntimeState::WaitingUser,
        !unattended ==> s == RuntimeState::WaitingApproval,
{
    if unattended {
        RuntimeState::WaitingUser
    } else {
        RuntimeState::WaitingApproval
    }
}

/// What one poll of the approval wait saw.
pub enum ApprovalEvent {
    /// Nothing arrived within the poll interval.
    Timeout,
    /// The side that would answer is gone.
    Disconnected,
    /// The user decided: the decision's name (`once`, `deny`, ...) and
    /// whether it approves.
    Decided { decision: String, approved: bool },
}

/// What the approval wait does next.
pub enum ApprovalStep {
    /// Poll again.
    Wait,
    /// The run was cancelled: the request is withdrawn, recorded as
    /// cancelled, and the call fails with this message.
    Cancelled(String),
    /// Nobody can answer any more: the call fails with this message.
    Abandoned(String),
    /// The user decided: the run resumes, the decision is recorded with
    /// `status` under `ledger_event`, and an approval is remembered for the
    /// session.
    Resolved { decision: String, approved: bool, status: String, ledger_event: String },
}

/// One poll of the approval wait. A cancelled run ends the wait whatever
/// arrived.
pub fn approval_wait_step(cancelled: bool, event: ApprovalEvent) -> (r: ApprovalStep)
    ensures
        cancelled ==> (r matches ApprovalStep::Cancelled(m) && m@ == "run cancelled while approval was pending"@),
        !cancelled && event is Timeout ==> r is Wait,
        !cancelled && event is Disconnected ==> (r matches ApprovalStep::Abandoned(m) && m@
            == "approval request was abandoned"@),
        !cancelled ==> (event matches ApprovalEvent::Decided { decision, approved } ==> r matches ApprovalStep::Resolved {
            decision: d,
            approved: a,
            status,
            ledger_event,
        } && d == decision && a == approved && status@ == (if approved {
            "approved"@
        } else {
            "denied"@
        }) && ledger_event@ == (if approved {
            "approval.approved"@
        } else {
            "approval.denied"@
        })),
{
    if cancelled {
        return ApprovalStep::Cancelled(owned("run cancelled while approval was pending"));
    }
    match event {
        ApprovalEvent::Timeout => ApprovalStep::Wait,
        ApprovalEvent::Disconnected => ApprovalStep::Abandoned(owned("approval request was abandoned")),
        ApprovalEvent::Decided { decision, approved } => {
            let status = if approved {
                owned("approved")
            } else {
                owned("denied")
            };
            let ledger_event = if approved {
                owned("approval.approved")
            } else {
                owned("approval.denied")
            };
            ApprovalStep::Resolved { decision, approved, status, ledger_event }
        },
    }
}

/// Whether a call may go on after the approval wait: `None` when the user
/// approved, otherwise the error the call fails with (a denial, or why the
/// wait ended).
pub fn approval_verdict(outcome: Result<bool, String>) -> (r: Option<String>)
    ensures
        match outcome {
            Ok(true) => r is None,
            Ok(false) => r matches Some(e) && e@ == "tool call denied by user"@,
            Err(e) => r == Some(e),
        },
{
    match outcome {
        Ok(true) => None,
        Ok(false) => Some(owned("tool call denied by user")),
        Err(e) => Some(e),
    }
}

/// Where a request waiting on a user is parked: an unattended run needs the
/// inbox (`inbox` is the outcome of adding the item there, or `None` when
/// the run has no inbox); an attended run parks nothing.
pub fn park_request(unattended: bool, inbox: Option<Result<String, String>>, persist_message: &str) -> (r: Result<
    Option<String>,
    String,
>)
    ensures
        !unattended ==> r == Ok::<Option<String>, String>(None),
        unattended ==> match inbox {
            None => r matches Err(e) && e@ == "inbox authority is unavailable"@,
            Some(Ok(id)) => r == Ok::<Option<String>, String>(Some(id)),
            Some(Err(e)) => r matches Err(x) && x@ == persist_message@ + e@,
        },
{
    if !unattended {
        return Ok(None);
    }
    match inbox {
        None => Err(owned("inbox authority is unavailable")),
        Some(Ok(id)) => Ok(Some(id)),
        Some(Err(e)) => Err(concat2(persist_message, e.as_str())),
    }
}

// -- Asking for an approval ------------------------------------------------------------

/// Where a request for the user's approval stands while it is being set up.
#[derive(Debug, Clone, Copy, PartialEq, Eq, Structural)]
pub enum RequestPhase {
    Announcing,
    LoggingRequest,
    RecordingPending,
    Parking,
    Checkpointing,
    LoggingParked,
    RecordingParked,
    Opening,
}

/// A request being set up: its phase, whether the run is unattended, and
/// the inbox item it was parked as.
pub struct ApprovalRequest {
    pub phase: RequestPhase,
    pub unattended: bool,
    pub inbox_item: Option<String>,
}

/// The host's next step in setting up a request.
pub enum RequestAction {
    /// Announce that permission is required and deliver the event.
    Announce,
    /// Log `approval.required`.
    LogRequest,
    /// Record the approval point `approval_required`, pending.
    RecordPending,
    /// Park the request in the inbox; the outcome is the item's id, or
    /// `None` when the run has no inbox.
    Park,
    /// Checkpoint the run as `awaiting_approval`, with the inbox item.
    Checkpoint { inbox_item: Option<String> },
    /// Log `approval.inbox`.
    LogParked,
    /// Record the approval point `approval_parked`, in the inbox.
    RecordParked,
    /// Open the wait and show the run in `awaiting`.
    Open { awaiting: RuntimeState },
}

/// What setting up a request does next.
pub enum RequestStep {
    Do(ApprovalRequest, RequestAction),
    /// The request could not be set up; the call fails with this error.
    Failed(String),
    /// The request is open; the wait begins.
    Ready,
}

/// The first step of a request.
pub fn begin_approval_request(unattended: bool) -> (r: (ApprovalRequest, RequestAction))
    ensures
        r.0.phase == RequestPhase::Announcing && r.0.unattended == unattended && r.0.inbox_item is None,
        r.1 is Announce,
{
    (ApprovalRequest { phase: RequestPhase::Announcing, unattended, inbox_item: None }, RequestAction::Announce)
}

/// The next step of a request, given the outcome of the last one. An
/// unattended run parks the request in the inbox and logs and records that;
/// an attended one does not. Any failure ends the setup.
pub fn approval_request_step(req: ApprovalRequest, outcome: Result<Option<String>, String>) -> (r: RequestStep)
    ensures
        outcome matches Err(e) ==> r == RequestStep::Failed(e),
        outcome is Ok ==> match req.phase {
            RequestPhase::Announcing => r matches RequestStep::Do(n, a) && n == (ApprovalRequest {
                phase: RequestPhase::LoggingRequest,
                ..req
            }) && a is LogRequest,
            RequestPhase::LoggingRequest => r matches RequestStep::Do(n, a) && n == (ApprovalRequest {
                phase: RequestPhase::RecordingPending,
                ..req
            }) && a is RecordPending,
            RequestPhase::RecordingPending => if req.unattended {
                r matches RequestStep::Do(n, a) && n == (ApprovalRequest { phase: RequestPhase::Parking, ..req })
                    && a is Park
            } else {
                r matches RequestStep::Do(n, a) && n.phase == RequestPhase::Checkpointing && n.unattended
                    == req.unattended && n.inbox_item is None && a == (RequestAction::Checkpoint { inbox_item: None })
            },
            RequestPhase::Parking => match outcome {
                Ok(Some(id)) => r matches RequestStep::Do(n, a) && n == (ApprovalRequest {
                    phase: RequestPhase::Checkpointing,
                    unattended: req.unattended,
                    inbox_item: Some(id),
                }) && a == (RequestAction::Checkpoint { inbox_item: Some(id) }),
                _ => r matches RequestStep::Failed(m) && m@ == "inbox authority is unavailable"@,
            },
            RequestPhase::Checkpointing => if req.unattended {
                r matches RequestStep::Do(n, a) && n == (ApprovalRequest { phase: RequestPhase::LoggingParked, ..req })
                    && a is LogParked
            } else {
                r matches RequestStep::Do(n, a) && n == (ApprovalRequest { phase: RequestPhase::Opening, ..req })
                    && a == (RequestAction::Open { awaiting: RuntimeState::WaitingApproval })
            },
            RequestPhase::LoggingParked => r matches RequestStep::Do(n, a) && n == (ApprovalRequest {
                phase: RequestPhase::RecordingParked,
                ..req
            }) && a is RecordParked,
            RequestPhase::RecordingParked => r matches RequestStep::Do(n, a) && n == (ApprovalRequest {
                phase: RequestPhase::Opening,
                ..req
            }) && a == (RequestAction::Open { awaiting: RuntimeState::WaitingUser }),
            RequestPhase::Opening => r is Ready,
        },
{
    match outcome {
        Err(e) => RequestStep::Failed(e),
        Ok(value) => match req.phase {
            RequestPhase::Announcing => RequestStep::Do(
                ApprovalRequest { phase: RequestPhase::LoggingRequest, ..req },
                RequestAction::LogRequest,
            ),
            RequestPhase::LoggingRequest => RequestStep::Do(
                ApprovalRequest { phase: RequestPhase::RecordingPending, ..req },
                RequestAction::RecordPending,
            ),
            RequestPhase::RecordingPending => {
                if req.unattended {
                    RequestStep::Do(ApprovalRequest { phase: RequestPhase::Parking, ..req }, RequestAction::Park)
                } else {
                    RequestStep::Do(
                        ApprovalRequest { phase: RequestPhase::Checkpointing, unattended: false, inbox_item: None },
                        RequestAction::Checkpoint { inbox_item: None },
                    )
                }
            },
            RequestPhase::Parking => match value {
                Some(id) => {
                    let item = id.clone();
                    RequestStep::Do(
                        ApprovalRequest {
                            phase: RequestPhase::Checkpointing,
                            unattended: req.unattended,
                            inbox_item: Some(id),
                        },
                        RequestAction::Checkpoint { inbox_item: Some(item) },
                    )
                },
                None => RequestStep::Failed(owned("inbox authority is unavailable")),
            },
            RequestPhase::Checkpointing => {
                if req.unattended {
                    RequestStep::Do(
                        ApprovalRequest { phase: RequestPhase::LoggingParked, ..req },
                        RequestAction::LogParked,
                    )
                } else {
                    RequestStep::Do(
                        ApprovalRequest { phase: RequestPhase::Opening, ..req },
                        RequestAction::Open { awaiting: awaiting_state(false) },
                    )
                }
            },
            RequestPhase::LoggingParked => RequestStep::Do(
                ApprovalRequest { phase: RequestPhase::RecordingParked, ..req },
                RequestAction::RecordParked,
            ),
            RequestPhase::RecordingParked => RequestStep::Do(
                ApprovalRequest { phase: RequestPhase::Opening, ..req },
                RequestAction::Open { awaiting: awaiting_state(true) },
            ),
            RequestPhase::Opening => RequestStep::Ready,
        },
    }
}

// -- User interactions ---------------------------------------------------------------

/// Before an interaction waits: a failed delivery of its announcement, or
/// a failure to park it, ends it with that error; otherwise it waits,
/// parked in the inbox when the run is unattended.
pub fn interaction_setup(delivery: Result<(), String>, unattended: bool, inbox: Option<Result<String, String>>) -> (r:
    Result<Option<String>, String>)
    ensures
        delivery matches Err(e) ==> r == Err::<Option<String>, String>(e),
        delivery is Ok && !unattended ==> r == Ok::<Option<String>, String>(None),
        delivery is Ok && unattended ==> match inbox {
            None => r matches Err(e) && e@ == "inbox authority is unavailable"@,
            Some(Ok(id)) => r == Ok::<Option<String>, String>(Some(id)),
            Some(Err(e)) => r matches Err(x) && x@ == "failed to persist inbox interaction: "@ + e@,
        },
{
    match delivery {
        Err(e) => Err(e),
        Ok(()) => park_request(unattended, inbox, "failed to persist inbox interaction: "),
    }
}

/// What one poll of an interaction wait saw.
pub enum InteractionEvent {
    Timeout,
    Disconnected,
    /// The user's response.
    Answered(Json),
}

/// What the interaction wait does next.
pub enum InteractionStep {
    Wait,
    /// The run was cancelled; the pending interaction is withdrawn.
    Cancelled,
    /// Nobody can answer any more: the call fails with this message.
    Abandoned(String),
    /// The user answered; the run resumes with the response.
    Answered(Json),
}

/// One poll of an interaction wait. A cancelled run ends the wait whatever
/// arrived.
pub fn interaction_wait_step(cancelled: bool, event: InteractionEvent) -> (r: InteractionStep)
    ensures
        cancelled ==> r is Cancelled,
        !cancelled && event is Timeout ==> r is Wait,
        !cancelled && event is Disconnected ==> (r matches InteractionStep::Abandoned(m) && m@
            == "user interaction was abandoned"@),
        !cancelled ==> (event matches InteractionEvent::Answered(v) ==> r == InteractionStep::Answered(v)),
{
    if cancelled {
        return InteractionStep::Cancelled;
    }
    match event {
        InteractionEvent::Timeout => InteractionStep::Wait,
        InteractionEvent::Disconnected => InteractionStep::Abandoned(owned("user interaction was abandoned")),
        InteractionEvent::Answered(v) => InteractionStep::Answered(v),
    }
}

/// The result of an interaction withdrawn because the run was cancelled,
/// given whether recording the cancellation succeeded.
pub fn cancelled_interaction(call_id: &str, recorded: Result<(), String>) -> (r: ToolResult)
    ensures
        r.tool_call_id@ == call_id@,
        r.state == ToolExitState::Failed,
        r.staged_artifacts@.len() == 0,
        r.validation_criteria is None,
        r.error matches Some(m) && r.output@ == failure_output(m@) && m@ == match recorded {
            Ok(_) => "run cancelled while user input was pending"@,
            Err(e) => "run cancelled while user input was pending; failed to persist interaction.cancelled: "@
                + e@,
        },
{
    match recorded {
        Ok(()) => ToolResult::failure(call_id, owned("run cancelled while user input was pending")),
        Err(e) => ToolResult::failure(
            call_id,
            concat2("run cancelled while user input was pending; failed to persist interaction.cancelled: ", e.as_str()),
        ),
    }
}

/// The result of an answered interaction, given whether recording the
/// answer succeeded: the answer is the call's output.
pub fn answered_interaction(call_id: &str, response: Json, recorded: Result<(), String>) -> (r: ToolResult)
    ensures
        r.tool_call_id@ == call_id@,
        r.staged_artifacts@.len() == 0,
        r.validation_criteria is None,
        match recorded {
            Ok(_) => r.state == ToolExitState::Completed && r.output == response && r.error is None,
            Err(e) => r.state == ToolExitState::Failed && (r.error matches Some(m) && m@
                == "failed to persist interaction.resolved: "@ + e@ && r.output@ == failure_output(m@)),
        },
{
    match recorded {
        Ok(()) => ToolResult::success(call_id, response),
        Err(e) => ToolResult::failure(call_id, concat2("failed to persist interaction.resolved: ", e.as_str())),
    }
}

} // verus!
