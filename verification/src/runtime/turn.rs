//! The decisions of a run's turn loop.
//!
//! Each iteration sends one request to the provider, records what came back
//! and runs the reply's tool calls. The host performs those steps and tells
//! the loop what happened; `turn_step` says what to do next: stop at the
//! iteration limit, stop as interrupted, retry a transient failure, fail,
//! run tools, go on, or finish.

use vstd::prelude::*;

use crate::json::{Json, JsonView};
use crate::runtime::tools::ToolCall;
use crate::text::{decimal, decimal_of, owned};

verus! {

/// The loop's counters and limits.
#[derive(Debug, Clone, Copy, PartialEq, Eq, Structural)]
pub struct TurnView {
    /// Iterations begun so far.
    pub iterations: usize,
    /// Transient failures retried so far.
    pub retries: u32,
    pub max_iterations: usize,
    pub max_retries: u32,
}

/// What the host saw at a point of the loop.
pub enum TurnEvent {
    /// The top of an iteration.
    Begin { cancelled: bool },
    /// The provider stream was cut short (by steering or cancellation), after
    /// the given text and reasoning had streamed.
    StreamInterrupted { streamed_text: bool, streamed_reasoning: bool, cancelled: bool },
    /// The provider stream failed. `retryable` is the retry policy's verdict
    /// on the error.
    StreamFailed { error: String, streamed: bool, cancelled: bool, retryable: bool },
    /// The stream completed: whether a reply was assembled, whether it calls
    /// tools, whether steering arrived meanwhile (taken in by the host), and
    /// whether anything had streamed.
    Replied { cancelled: bool, has_reply: bool, has_tool_calls: bool, steered: bool, streamed: bool },
    /// The reply's tool calls have run.
    ToolsDone { cancelled: bool },
}

/// What the loop does next. Where a partial message is kept, `text` and
/// `reasoning` say which of the streamed parts it carries; neither means no
/// partial message.
pub enum TurnAction {
    /// Stop: the iteration limit is reached (`max_iterations_exceeded`).
    Exhausted,
    /// Stop as interrupted, after keeping the partial message.
    Interrupt { text: bool, reasoning: bool },
    /// Send the iteration's request.
    Request,
    /// Retry the request after a transient failure; the notice is recorded.
    Retry { notice: String },
    /// Fail the run with the error, after keeping the partial message.
    Fail { error: String, text: bool, reasoning: bool },
    /// Keep the partial message and go on to the next iteration.
    Next { text: bool, reasoning: bool },
    /// Record the reply and run its tool calls.
    RunTools,
    /// Record the reply; the run is completed.
    Complete,
}

/// The notice recorded for retry `attempt` of `max`.
pub open spec fn retry_notice(attempt: nat, max: nat) -> Seq<char> {
    "Retrying (attempt "@ + decimal_of(attempt) + "/"@ + decimal_of(max) + ")"@
}

/// One decision of the turn loop.
pub fn turn_step(view: TurnView, event: TurnEvent) -> (r: (TurnView, TurnAction))
    ensures
        r.0.max_iterations == view.max_iterations && r.0.max_retries == view.max_retries,
        match event {
            TurnEvent::Begin { cancelled } => if view.iterations >= view.max_iterations {
                r.0 == view && r.1 is Exhausted
            } else {
                r.0.iterations == view.iterations + 1 && r.0.retries == view.retries && if cancelled {
                    r.1 matches TurnAction::Interrupt { text, reasoning } && !text && !reasoning
                } else {
                    r.1 is Request
                }
            },
            TurnEvent::StreamInterrupted { streamed_text, streamed_reasoning, cancelled } => r.0 == view && if cancelled {
                r.1 matches TurnAction::Interrupt { text, reasoning } && text == streamed_text && reasoning
                    == streamed_reasoning
            } else {
                r.1 matches TurnAction::Next { text, reasoning } && text == streamed_text && reasoning
                    == streamed_reasoning
            },
            TurnEvent::StreamFailed { error, streamed, cancelled, retryable } => if view.retries < view.max_retries
                && !streamed && !cancelled && retryable {
                r.0.iterations == view.iterations && r.0.retries == view.retries + 1 && (r.1 matches TurnAction::Retry {
                    notice,
                } && notice@ == retry_notice((view.retries + 1) as nat, view.max_retries as nat))
            } else {
                r.0 == view && (r.1 matches TurnAction::Fail { error: e, text, reasoning } && e == error && text
                    == streamed && reasoning == streamed)
            },
            TurnEvent::Replied { cancelled, has_reply, has_tool_calls, steered, streamed } => r.0 == view && if cancelled
                && !has_reply {
                r.1 matches TurnAction::Interrupt { text, reasoning } && text == streamed && reasoning == streamed
            } else if has_tool_calls {
                r.1 is RunTools
            } else if steered {
                r.1 matches TurnAction::Next { text, reasoning } && !text && !reasoning
            } else {
                r.1 is Complete
            },
            TurnEvent::ToolsDone { cancelled } => r.0 == view && if cancelled {
                r.1 matches TurnAction::Interrupt { text, reasoning } && !text && !reasoning
            } else {
                r.1 matches TurnAction::Next { text, reasoning } && !text && !reasoning
            },
        },
{
    match event {
        TurnEvent::Begin { cancelled } => {
            if view.iterations >= view.max_iterations {
                return (view, TurnAction::Exhausted);
            }
            let next = TurnView { iterations: view.iterations + 1, ..view };
            if cancelled {
                (next, TurnAction::Interrupt { text: false, reasoning: false })
            } else {
                (next, TurnAction::Request)
            }
        },
        TurnEvent::StreamInterrupted { streamed_text, streamed_reasoning, cancelled } => {
            if cancelled {
                (view, TurnAction::Interrupt { text: streamed_text, reasoning: streamed_reasoning })
            } else {
                (view, TurnAction::Next { text: streamed_text, reasoning: streamed_reasoning })
            }
        },
        TurnEvent::StreamFailed { error, streamed, cancelled, retryable } => {
            if view.retries < view.max_retries && !streamed && !cancelled && retryable {
                let attempt = view.retries + 1;
                let mut notice = owned("Retrying (attempt ");
                notice.append(decimal(attempt as u64).as_str());
                notice.append("/");
                notice.append(decimal(view.max_retries as u64).as_str());
                notice.append(")");
                (TurnView { retries: attempt, ..view }, TurnAction::Retry { notice })
            } else {
                (view, TurnAction::Fail { error, text: streamed, reasoning: streamed })
            }
        },
        TurnEvent::Replied { cancelled, has_reply, has_tool_calls, steered, streamed } => {
            if cancelled && !has_reply {
                (view, TurnAction::Interrupt { text: streamed, reasoning: streamed })
            } else if has_tool_calls {
                (view, TurnAction::RunTools)
            } else if steered {
                (view, TurnAction::Next { text: false, reasoning: false })
            } else {
                (view, TurnAction::Complete)
            }
        },
        TurnEvent::ToolsDone { cancelled } => {
            if cancelled {
                (view, TurnAction::Interrupt { text: false, reasoning: false })
            } else {
                (view, TurnAction::Next { text: false, reasoning: false })
            }
        },
    }
}

/// The status a run's turn loop ends with when it stops without failing.
pub fn turn_status(action: &TurnAction) -> (s: Option<String>)
    ensures
        match *action {
            TurnAction::Exhausted => s matches Some(t) && t@ == "max_iterations_exceeded"@,
            TurnAction::Interrupt { .. } => s matches Some(t) && t@ == "interrupted"@,
            TurnAction::Complete => s matches Some(t) && t@ == "completed"@,
            _ => s is None,
        },
{
    match action {
        TurnAction::Exhausted => Some(owned("max_iterations_exceeded")),
        TurnAction::Interrupt { .. } => Some(owned("interrupted")),
        TurnAction::Complete => Some(owned("completed")),
        _ => None,
    }
}

/// The assistant's reply to one request, as the provider stream assembled
/// it.
#[derive(Debug)]
pub struct AssistantTurn {
    pub text: Option<String>,
    pub reasoning: Option<String>,
    pub tool_calls: Vec<ToolCall>,
    pub finish_reason: Option<String>,
    pub usage: Option<Json>,
}

pub open spec fn text_view(o: Option<String>) -> Option<Seq<char>> {
    match o {
        Some(s) => Some(s@),
        None => None,
    }
}

/// A text member, or empty.
pub open spec fn text_or_empty(o: Option<Seq<char>>) -> Seq<char> {
    match o {
        Some(s) => s,
        None => Seq::empty(),
    }
}

/// `c` is the tool call that reply item `item` describes: its `id` and
/// `name` (empty when missing) and its `arguments` (`{}` when missing).
pub open spec fn is_call_of(c: ToolCall, item: JsonView) -> bool {
    &&& c.id@ == text_or_empty(item.str_field("id"@))
    &&& c.name@ == text_or_empty(item.str_field("name"@))
    &&& c.arguments@ == match item.get("arguments"@) {
        Some(a) => a,
        None => JsonView::Object(Seq::empty()),
    }
}

/// The tool calls a reply lists.
pub open spec fn reply_calls(reply: JsonView) -> Seq<JsonView> {
    match reply.get("tool_calls"@) {
        Some(JsonView::Array(items)) => items,
        _ => Seq::empty(),
    }
}

fn text_of(j: &Json, key: &str) -> (r: Option<String>)
    ensures
        text_view(r) == j@.str_field(key@),
{
    match j.str_field(key) {
        Some(t) => Some(owned(t)),
        None => None,
    }
}

fn call_of(item: &Json) -> (c: ToolCall)
    ensures
        is_call_of(c, item@),
{
    let id = match item.str_field("id") {
        Some(t) => owned(t),
        None => String::new(),
    };
    let name = match item.str_field("name") {
        Some(t) => owned(t),
        None => String::new(),
    };
    let arguments = match item.get("arguments") {
        Some(a) => a.deep_clone(),
        None => Json::Object(Vec::new()),
    };
    proof {
        assert(crate::json::members_view(Seq::<(String, Json)>::empty()) =~= Seq::<(Seq<char>, JsonView)>::empty());
    }
    ToolCall { id, name, arguments }
}

/// The reply a completed provider stream returned, read as the assistant's
/// turn; `None` when the stream reports that it was cancelled (the request
/// was interrupted).
pub fn assistant_turn_of(reply: &Json) -> (r: Option<AssistantTurn>)
    ensures
        reply@.bool_field("cancelled"@) == Some(true) ==> r is None,
        reply@.bool_field("cancelled"@) != Some(true) ==> (r matches Some(t) && {
            &&& text_view(t.text) == reply@.str_field("text"@)
            &&& text_view(t.reasoning) == reply@.str_field("reasoning"@)
            &&& text_view(t.finish_reason) == reply@.str_field("finish_reason"@)
            &&& crate::runtime::host::json_opt(t.usage) == reply@.get("usage"@)
            &&& t.tool_calls@.len() == reply_calls(reply@).len()
            &&& forall|i: int|
                0 <= i < t.tool_calls@.len() ==> #[trigger] is_call_of(t.tool_calls@[i], reply_calls(reply@)[i])
        }),
{
    if reply.bool_field("cancelled") == Some(true) {
        return None;
    }
    let mut tool_calls: Vec<ToolCall> = Vec::new();
    let ghost items = reply_calls(reply@);
    match reply.get("tool_calls") {
        Some(Json::Array(list)) => {
            proof {
                crate::json::lemma_items_view(list@);
            }
            let mut i: usize = 0;
            while i < list.len()
                invariant
                    i <= list.len(),
                    items == crate::json::items_view(list@),
                    items.len() == list@.len(),
                    tool_calls@.len() == i,
                    forall|j: int| 0 <= j < i ==> #[trigger] is_call_of(tool_calls@[j], items[j]),
                decreases list.len() - i,
            {
                proof {
                    crate::json::lemma_items_view(list@);
                }
                tool_calls.push(call_of(&list[i]));
                i = i + 1;
            }
        },
        _ => {},
    }
    let usage = match reply.get("usage") {
        Some(u) => Some(u.deep_clone()),
        None => None,
    };
    Some(
        AssistantTurn {
            text: text_of(reply, "text"),
            reasoning: text_of(reply, "reasoning"),
            tool_calls,
            finish_reason: text_of(reply, "finish_reason"),
            usage,
        },
    )
}

} // verus!
