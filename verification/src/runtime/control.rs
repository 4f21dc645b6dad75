//! Session run lifecycle control.
//!
//! One session owns at most one active run. Control commands (start, steer,
//! follow-up, cancel) are decided here from the current lifecycle state; the
//! worker thread that drives the agent loop reports each finished operation
//! back through [`RuntimeControl::finish_operation`].

use vstd::prelude::*;

use crate::text::owned;

verus! {

/// Authoritative lifecycle state for one session runtime.
#[derive(Debug, Clone, Copy, PartialEq, Eq, Structural)]
pub enum RuntimeState {
    Idle,
    Running,
    WaitingApproval,
    WaitingUser,
    Cancelling,
    Interrupted,
    Failed,
    Completed,
}

impl RuntimeState {
    /// A run is in progress (or being cancelled).
    pub open spec fn active(self) -> bool {
        ||| self is Running
        ||| self is WaitingApproval
        ||| self is WaitingUser
        ||| self is Cancelling
    }

    /// A run is in progress and can accept guidance or follow-ups.
    pub open spec fn steerable(self) -> bool {
        ||| self is Running
        ||| self is WaitingApproval
        ||| self is WaitingUser
    }

    /// The variant name, as `{:?}` prints it.
    pub open spec fn debug_name(self) -> Seq<char> {
        match self {
            RuntimeState::Idle => "Idle"@,
            RuntimeState::Running => "Running"@,
            RuntimeState::WaitingApproval => "WaitingApproval"@,
            RuntimeState::WaitingUser => "WaitingUser"@,
            RuntimeState::Cancelling => "Cancelling"@,
            RuntimeState::Interrupted => "Interrupted"@,
            RuntimeState::Failed => "Failed"@,
            RuntimeState::Completed => "Completed"@,
        }
    }

    /// The snake_case name used on the product wire.
    pub open spec fn wire_name(self) -> Seq<char> {
        match self {
            RuntimeState::Idle => "idle"@,
            RuntimeState::Running => "running"@,
            RuntimeState::WaitingApproval => "waiting_approval"@,
            RuntimeState::WaitingUser => "waiting_user"@,
            RuntimeState::Cancelling => "cancelling"@,
            RuntimeState::Interrupted => "interrupted"@,
            RuntimeState::Failed => "failed"@,
            RuntimeState::Completed => "completed"@,
        }
    }

    pub fn is_active(self) -> (r: bool)
        ensures
            r == self.active(),
    {
        match self {
            RuntimeState::Running | RuntimeState::WaitingApproval | RuntimeState::WaitingUser
            | RuntimeState::Cancelling => true,
            _ => false,
        }
    }

    pub fn is_steerable(self) -> (r: bool)
        ensures
            r == self.steerable(),
    {
        match self {
            RuntimeState::Running | RuntimeState::WaitingApproval | RuntimeState::WaitingUser => true,
            _ => false,
        }
    }

    pub fn debug_string(self) -> (r: String)
        ensures
            r@ == self.debug_name(),
    {
        match self {
            RuntimeState::Idle => owned("Idle"),
            RuntimeState::Running => owned("Running"),
            RuntimeState::WaitingApproval => owned("WaitingApproval"),
            RuntimeState::WaitingUser => owned("WaitingUser"),
            RuntimeState::Cancelling => owned("Cancelling"),
            RuntimeState::Interrupted => owned("Interrupted"),
            RuntimeState::Failed => owned("Failed"),
            RuntimeState::Completed => owned("Completed"),
        }
    }

    pub fn wire_string(self) -> (r: String)
        ensures
            r@ == self.wire_name(),
    {
        match self {
            RuntimeState::Idle => owned("idle"),
            RuntimeState::Running => owned("running"),
            RuntimeState::WaitingApproval => owned("waiting_approval"),
            RuntimeState::WaitingUser => owned("waiting_user"),
            RuntimeState::Cancelling => owned("cancelling"),
            RuntimeState::Interrupted => owned("interrupted"),
            RuntimeState::Failed => owned("failed"),
            RuntimeState::Completed => owned("completed"),
        }
    }
}

/// The terminal state a finished operation leaves the session in: an error
/// fails the run, `interrupted` interrupts it, `max_iterations_exceeded`
/// fails it, and any other status completes it.
pub open spec fn terminal_state_for(result: Result<Seq<char>, Seq<char>>) -> RuntimeState {
    match result {
        Err(_) => RuntimeState::Failed,
        Ok(status) => if status == "interrupted"@ {
            RuntimeState::Interrupted
        } else if status == "max_iterations_exceeded"@ {
            RuntimeState::Failed
        } else {
            RuntimeState::Completed
        },
    }
}

/// Spec view of a finished operation's result (`Ok(status)` or `Err(error)`).
pub open spec fn result_view(result: &Result<String, String>) -> Result<Seq<char>, Seq<char>> {
    match result {
        Ok(status) => Ok(status@),
        Err(error) => Err(error@),
    }
}

/// The lifecycle state after a run operation returned `result`.
pub fn state_from_result(result: &Result<String, String>) -> (s: RuntimeState)
    ensures
        s == terminal_state_for(result_view(result)),
{
    match result {
        Err(_) => RuntimeState::Failed,
        Ok(status) => {
            if crate::text::str_eq(status.as_str(), "interrupted") {
                RuntimeState::Interrupted
            } else if crate::text::str_eq(status.as_str(), "max_iterations_exceeded") {
                RuntimeState::Failed
            } else {
                RuntimeState::Completed
            }
        },
    }
}

/// Abstract state of a session's control surface.
pub struct ControlView<R, S> {
    pub state: RuntimeState,
    /// The run-level cancellation token.
    pub cancel: bool,
    /// The provider-stream interruption token.
    pub provider_cancel: bool,
    /// Guidance waiting to be injected into the live run.
    pub steering: Seq<S>,
    /// Distinct runs queued to start after the current one, oldest first.
    pub follow_ups: Seq<R>,
}

impl<R, S> ControlView<R, S> {
    /// Starting a run from an inactive state clears every token and queue.
    pub open spec fn started(self) -> Self {
        ControlView {
            state: RuntimeState::Running,
            cancel: false,
            provider_cancel: false,
            steering: Seq::empty(),
            follow_ups: Seq::empty(),
        }
    }

    pub open spec fn steered(self, item: S) -> Self {
        ControlView { steering: self.steering.push(item), provider_cancel: true, ..self }
    }

    pub open spec fn followed(self, run: R) -> Self {
        ControlView { follow_ups: self.follow_ups.push(run), ..self }
    }

    pub open spec fn cancelled(self) -> Self {
        ControlView {
            state: RuntimeState::Cancelling,
            follow_ups: Seq::empty(),
            cancel: true,
            provider_cancel: true,
            ..self
        }
    }

    /// The state and the next queued run after an operation finished.
    pub open spec fn finished(self, result: Result<Seq<char>, Seq<char>>) -> (Self, Option<R>) {
        if self.cancel {
            (ControlView { follow_ups: Seq::empty(), state: RuntimeState::Interrupted, ..self }, None)
        } else if self.follow_ups.len() > 0 {
            (
                ControlView {
                    follow_ups: self.follow_ups.drop_first(),
                    cancel: false,
                    provider_cancel: false,
                    state: RuntimeState::Running,
                    ..self
                },
                Some(self.follow_ups[0]),
            )
        } else {
            (ControlView { state: terminal_state_for(result), ..self }, None)
        }
    }
}

/// A session's control surface: lifecycle state, cancellation tokens and the
/// steering and follow-up queues.
pub struct RuntimeControl<R, S> {
    state: RuntimeState,
    cancel: bool,
    provider_cancel: bool,
    steering: Vec<S>,
    follow_ups: Vec<R>,
}

impl<R, S> View for RuntimeControl<R, S> {
    type V = ControlView<R, S>;

    closed spec fn view(&self) -> ControlView<R, S> {
        ControlView {
            state: self.state,
            cancel: self.cancel,
            provider_cancel: self.provider_cancel,
            steering: self.steering@,
            follow_ups: self.follow_ups@,
        }
    }
}

/// `"session " + id + tail + " (" + state + ")"`.
pub open spec fn session_state_error(head: Seq<char>, id: Seq<char>, tail: Seq<char>, state: RuntimeState) -> Seq<char> {
    head + id + tail + " ("@ + state.debug_name() + ")"@
}

fn session_state_message(head: &str, session_id: &str, tail: &str, state: RuntimeState) -> (m: String)
    ensures
        m@ == session_state_error(head@, session_id@, tail@, state),
{
    let mut m = owned(head);
    m.append(session_id);
    m.append(tail);
    m.append(" (");
    let name = state.debug_string();
    m.append(name.as_str());
    m.append(")");
    m
}

/// `"session " + id + tail`.
fn session_message(session_id: &str, tail: &str) -> (m: String)
    ensures
        m@ == "session "@ + session_id@ + tail@,
{
    let mut m = owned("session ");
    m.append(session_id);
    m.append(tail);
    m
}

impl<R, S> RuntimeControl<R, S> {
    pub fn new() -> (c: Self)
        ensures
            c@.state == RuntimeState::Idle,
            !c@.cancel,
            !c@.provider_cancel,
            c@.steering.len() == 0,
            c@.follow_ups.len() == 0,
    {
        RuntimeControl {
            state: RuntimeState::Idle,
            cancel: false,
            provider_cancel: false,
            steering: Vec::new(),
            follow_ups: Vec::new(),
        }
    }

    pub fn state(&self) -> (s: RuntimeState)
        ensures
            s == self@.state,
    {
        self.state
    }

    pub fn is_cancelled(&self) -> (b: bool)
        ensures
            b == self@.cancel,
    {
        self.cancel
    }

    pub fn provider_interrupted(&self) -> (b: bool)
        ensures
            b == self@.provider_cancel,
    {
        self.provider_cancel
    }

    /// Accept a new run operation. A session never runs two operations at
    /// once: while a run is active the request is refused and nothing changes.
    pub fn enqueue_operation(&mut self, session_id: &str) -> (r: Result<(), String>)
        ensures
            r is Ok <==> !old(self)@.state.active(),
            r is Ok ==> final(self)@ == old(self)@.started(),
            r matches Err(e) ==> final(self)@ == old(self)@ && e@ == session_state_error(
                "session "@,
                session_id@,
                " already has an active run"@,
                old(self)@.state,
            ),
    {
        if self.state.is_active() {
            return Err(
                session_state_message("session ", session_id, " already has an active run", self.state),
            );
        }
        self.cancel = false;
        self.provider_cancel = false;
        self.steering.clear();
        self.follow_ups.clear();
        self.state = RuntimeState::Running;
        Ok(())
    }

    /// The worker could not receive an accepted operation: the session fails.
    pub fn worker_unavailable(&mut self, session_id: &str) -> (e: String)
        ensures
            final(self)@ == (ControlView { state: RuntimeState::Failed, ..old(self)@ }),
            e@ == "runtime worker for session "@ + session_id@ + " is unavailable"@,
    {
        self.state = RuntimeState::Failed;
        let mut m = owned("runtime worker for session ");
        m.append(session_id);
        m.append(" is unavailable");
        m
    }

    /// Inject guidance into the live run; the current provider stream is
    /// interrupted while the run itself stays active.
    pub fn steer(&mut self, session_id: &str, item: S) -> (r: Result<(), String>)
        ensures
            r is Ok <==> old(self)@.state.steerable(),
            r is Ok ==> final(self)@ == old(self)@.steered(item),
            r matches Err(e) ==> final(self)@ == old(self)@ && e@ == "session "@ + session_id@
                + " cannot be steered while "@ + old(self)@.state.debug_name(),
    {
        if !self.state.is_steerable() {
            let mut m = session_message(session_id, " cannot be steered while ");
            let name = self.state.debug_string();
            m.append(name.as_str());
            return Err(m);
        }
        self.steering.push(item);
        self.provider_cancel = true;
        Ok(())
    }

    /// Queue a distinct run for the same session, to start after the current
    /// run reaches a terminal boundary.
    pub fn follow_up(&mut self, session_id: &str, run: R) -> (r: Result<(), String>)
        ensures
            r is Ok <==> old(self)@.state.steerable(),
            r is Ok ==> final(self)@ == old(self)@.followed(run),
            r matches Err(e) ==> final(self)@ == old(self)@ && e@ == "session "@ + session_id@
                + " has no active run to follow"@,
    {
        if !self.state.is_steerable() {
            return Err(session_message(session_id, " has no active run to follow"));
        }
        self.follow_ups.push(run);
        Ok(())
    }

    /// Cancel the active run. Pending follow-ups are discarded so cancellation
    /// cannot start more work. Returns whether there was a run to cancel.
    pub fn cancel(&mut self) -> (b: bool)
        ensures
            b == old(self)@.state.active(),
            b ==> final(self)@ == old(self)@.cancelled(),
            !b ==> final(self)@ == old(self)@,
    {
        if !self.state.is_active() {
            return false;
        }
        self.state = RuntimeState::Cancelling;
        self.follow_ups.clear();
        self.cancel = true;
        self.provider_cancel = true;
        true
    }

    /// Move the queued guidance out of the control surface.
    pub fn take_steering(&mut self) -> (items: Vec<S>)
        ensures
            items@ == old(self)@.steering,
            final(self)@ == (ControlView { steering: Seq::empty(), ..old(self)@ }),
    {
        let mut items: Vec<S> = Vec::new();
        std::mem::swap(&mut items, &mut self.steering);
        items
    }

    /// A new provider request begins: steering that arrives from now on
    /// interrupts the stream again.
    pub fn reset_provider_interrupt(&mut self)
        ensures
            final(self)@ == (ControlView { provider_cancel: false, ..old(self)@ }),
    {
        self.provider_cancel = false;
    }

    /// The worker finished one operation with `result`. A cancelled session
    /// stops (queued follow-ups are dropped); otherwise the oldest queued
    /// follow-up starts; otherwise the session settles in the terminal state
    /// that `result` determines.
    pub fn finish_operation(&mut self, result: &Result<String, String>) -> (next: Option<R>)
        ensures
            (final(self)@, next) == old(self)@.finished(result_view(result)),
    {
        if self.cancel {
            self.follow_ups.clear();
            self.state = RuntimeState::Interrupted;
            return None;
        }
        if self.follow_ups.len() > 0 {
            let next = self.follow_ups.remove(0);
            self.cancel = false;
            self.provider_cancel = false;
            self.state = RuntimeState::Running;
            assert(self.follow_ups@ =~= old(self)@.follow_ups.drop_first());
            return Some(next);
        }
        self.state = state_from_result(result);
        None
    }

    /// The worker moved the run into another in-flight state (waiting for an
    /// approval or for the user, or running again).
    pub fn set_state(&mut self, state: RuntimeState)
        ensures
            final(self)@ == (ControlView { state, ..old(self)@ }),
    {
        self.state = state;
    }

    /// Model switches, runtime refreshes and transcript truncation are refused
    /// while a run is active. `action` names the refused command.
    pub fn ensure_inactive(&self, action: &str, session_id: &str) -> (r: Result<(), String>)
        ensures
            r is Ok <==> !self@.state.active(),
            r matches Err(e) ==> e@ == session_state_error(
                "cannot "@ + action@ + ": session "@,
                session_id@,
                " has an active run"@,
                self@.state,
            ),
    {
        if self.state.is_active() {
            let mut head = owned("cannot ");
            head.append(action);
            head.append(": session ");
            return Err(session_state_message(head.as_str(), session_id, " has an active run", self.state));
        }
        Ok(())
    }
}

/// Cancelling an active run discards every queued follow-up: when the
/// interrupted operation finishes, no further run starts and the session is
/// interrupted, whatever the operation returned.
pub proof fn law_cancel_starts_no_follow_up<R, S>(
    c: ControlView<R, S>,
    result: Result<Seq<char>, Seq<char>>,
)
    requires
        c.state.active(),
    ensures
        c.cancelled().finished(result).1 is None,
        c.cancelled().finished(result).0.state == RuntimeState::Interrupted,
        c.cancelled().finished(result).0.follow_ups.len() == 0,
        !c.cancelled().state.steerable(),
{
}

/// Follow-ups start one at a time, in the order they were queued, each as a
/// fresh running operation with cleared cancellation tokens.
pub proof fn law_follow_ups_run_in_order<R, S>(
    c: ControlView<R, S>,
    first: R,
    second: R,
    r1: Result<Seq<char>, Seq<char>>,
    r2: Result<Seq<char>, Seq<char>>,
)
    requires
        c.state.steerable(),
        !c.cancel,
        c.follow_ups.len() == 0,
    ensures
        ({
            let queued = c.followed(first).followed(second);
            let (after_first, next1) = queued.finished(r1);
            let (after_second, next2) = after_first.finished(r2);
            &&& next1 == Some(first)
            &&& after_first.state == RuntimeState::Running
            &&& !after_first.cancel
            &&& !after_first.provider_cancel
            &&& next2 == Some(second)
            &&& after_second.follow_ups.len() == 0
        }),
{
    let queued = c.followed(first).followed(second);
    assert(queued.follow_ups =~= seq![first, second]);
    assert(queued.finished(r1).0.follow_ups =~= seq![second]);
}

/// A session without cancellation or queued work settles in a terminal,
/// inactive state; it then accepts a new run and refuses guidance.
pub proof fn law_finished_session_is_idle_again<R, S>(
    c: ControlView<R, S>,
    result: Result<Seq<char>, Seq<char>>,
)
    requires
        !c.cancel,
        c.follow_ups.len() == 0,
    ensures
        c.finished(result).1 is None,
        !c.finished(result).0.state.active(),
        !c.finished(result).0.state.steerable(),
        c.finished(result).0.state == terminal_state_for(result),
{
}

/// A session runs at most one operation at a time: starting makes it active,
/// and an active session refuses every further start until it finishes.
pub proof fn law_one_active_run<R, S>(c: ControlView<R, S>)
    requires
        !c.state.active(),
    ensures
        c.started().state.active(),
        c.started().follow_ups.len() == 0,
        c.started().steering.len() == 0,
        !c.started().cancel,
{
}

/// Guidance always interrupts the live provider stream, and it never changes
/// the lifecycle state or the follow-up queue.
pub proof fn law_steering_interrupts_stream<R, S>(c: ControlView<R, S>, item: S)
    ensures
        c.steered(item).provider_cancel,
        c.steered(item).state == c.state,
        c.steered(item).follow_ups == c.follow_ups,
        c.steered(item).steering.last() == item,
{
}

} // verus!
