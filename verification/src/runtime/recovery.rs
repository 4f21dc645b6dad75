//! The shared authorities every session uses, and the restart-recovery
//! decision that closes runs interrupted by a crash.

use std::sync::Arc;

use vstd::prelude::*;

use crate::text::{concat2, lemma_names_push, names, owned};

verus! {

/// Clones a shared handle; both point to the same authority.
#[verifier::external_body]
fn share<T>(handle: &Arc<T>) -> (r: Arc<T>)
    ensures
        *r == **handle,
{
    Arc::clone(handle)
}

/// Shared authorities used by every active session: the run ledger, the
/// side-effect idempotency log, the approval audit log and the inbox.
pub struct RuntimeAuthorities<L, I, A, B> {
    ledger: Arc<L>,
    idempotency: Arc<I>,
    approvals: Arc<A>,
    inbox: Arc<B>,
}

impl<L, I, A, B> RuntimeAuthorities<L, I, A, B> {
    pub closed spec fn ledger_authority(&self) -> L {
        *self.ledger
    }

    pub closed spec fn idempotency_authority(&self) -> I {
        *self.idempotency
    }

    pub closed spec fn approval_authority(&self) -> A {
        *self.approvals
    }

    pub closed spec fn inbox_authority(&self) -> B {
        *self.inbox
    }

    pub fn new(ledger: Arc<L>, idempotency: Arc<I>, approvals: Arc<A>, inbox: Arc<B>) -> (r: Self)
        ensures
            r.ledger_authority() == *ledger,
            r.idempotency_authority() == *idempotency,
            r.approval_authority() == *approvals,
            r.inbox_authority() == *inbox,
    {
        RuntimeAuthorities { ledger, idempotency, approvals, inbox }
    }

    /// A handle to the run ledger.
    pub fn ledger(&self) -> (r: Arc<L>)
        ensures
            *r == self.ledger_authority(),
    {
        share(&self.ledger)
    }

    /// Read-write handle to the side-effect idempotency authority.
    pub fn idempotency(&self) -> (r: Arc<I>)
        ensures
            *r == self.idempotency_authority(),
    {
        share(&self.idempotency)
    }

    /// A handle to the approval audit authority.
    pub fn approvals(&self) -> (r: Arc<A>)
        ensures
            *r == self.approval_authority(),
    {
        share(&self.approvals)
    }

    pub fn inbox(&self) -> (r: Arc<B>)
        ensures
            *r == self.inbox_authority(),
    {
        share(&self.inbox)
    }
}

/// Outcome of a cold-start restart recovery sweep.
#[derive(Debug)]
pub struct RecoveryReport<E> {
    /// Runs that were mid-execution at the crash and are now closed as
    /// interrupted; their stale side effects were swept to uncertain.
    pub interrupted_runs: Vec<String>,
    /// Runs paused on a human action, left open so their waiting state is
    /// restored.
    pub recovered_waiting: Vec<String>,
    /// Side-effect entries swept from planned or executing to uncertain.
    pub swept_side_effects: Vec<E>,
}

impl<E> Default for RecoveryReport<E> {
    fn default() -> (r: Self)
        ensures
            r.interrupted_runs@.len() == 0,
            r.recovered_waiting@.len() == 0,
            r.swept_side_effects@.len() == 0,
    {
        RecoveryReport {
            interrupted_runs: Vec::new(),
            recovered_waiting: Vec::new(),
            swept_side_effects: Vec::new(),
        }
    }
}


/// The runs of `runs` whose flag equals `keep`, in order.
pub open spec fn runs_where(runs: Seq<Seq<char>>, flags: Seq<bool>, keep: bool) -> Seq<Seq<char>>
    decreases runs.len(),
{
    if runs.len() == 0 {
        Seq::empty()
    } else {
        let rest = runs_where(runs.drop_last(), flags.drop_last(), keep);
        if flags[runs.len() - 1] == keep {
            rest.push(runs.last())
        } else {
            rest
        }
    }
}

/// Splits the open runs by their latest checkpoint: a run whose checkpoint is
/// recoverable (paused on a human action) stays open and is returned second;
/// every other open run is interrupted and returned first. Order is kept.
pub fn partition_open_runs(open_runs: &Vec<String>, recoverable: &Vec<bool>) -> (r: (
    Vec<String>,
    Vec<String>,
))
    requires
        open_runs.len() == recoverable.len(),
    ensures
        names(r.0@) == runs_where(names(open_runs@), recoverable@, false),
        names(r.1@) == runs_where(names(open_runs@), recoverable@, true),
{
    let mut interrupted: Vec<String> = Vec::new();
    let mut waiting: Vec<String> = Vec::new();
    let mut i: usize = 0;
    while i < open_runs.len()
        invariant
            i <= open_runs.len() == recoverable.len(),
            names(interrupted@) == runs_where(
                names(open_runs@).subrange(0, i as int),
                recoverable@.subrange(0, i as int),
                false,
            ),
            names(waiting@) == runs_where(
                names(open_runs@).subrange(0, i as int),
                recoverable@.subrange(0, i as int),
                true,
            ),
        decreases open_runs.len() - i,
    {
        let ghost before = names(open_runs@).subrange(0, i as int);
        let ghost flags_before = recoverable@.subrange(0, i as int);
        let ghost after = names(open_runs@).subrange(0, i + 1);
        let ghost flags_after = recoverable@.subrange(0, i + 1);
        proof {
            assert(after.drop_last() =~= before);
            assert(flags_after.drop_last() =~= flags_before);
            assert(after.last() == open_runs@[i as int]@);
        }
        let name = owned(open_runs[i].as_str());
        if recoverable[i] {
            proof {
                lemma_names_push(waiting@, name);
            }
            waiting.push(name);
        } else {
            proof {
                lemma_names_push(interrupted@, name);
            }
            interrupted.push(name);
        }
        i = i + 1;
    }
    proof {
        assert(names(open_runs@).subrange(0, i as int) =~= names(open_runs@));
        assert(recoverable@.subrange(0, i as int) =~= recoverable@);
    }
    (interrupted, waiting)
}

/// Recovery accounts for every open run exactly once: each is either
/// interrupted or restored as waiting, never both and never dropped.
pub proof fn law_recovery_accounts_for_every_open_run(runs: Seq<Seq<char>>, flags: Seq<bool>)
    requires
        runs.len() == flags.len(),
    ensures
        runs_where(runs, flags, false).len() + runs_where(runs, flags, true).len() == runs.len(),
        forall|k: Seq<char>|
            runs_where(runs, flags, false).contains(k) ==> exists|i: int|
                0 <= i < runs.len() && runs[i] == k && !flags[i],
        forall|k: Seq<char>|
            runs_where(runs, flags, true).contains(k) ==> exists|i: int|
                0 <= i < runs.len() && runs[i] == k && flags[i],
    decreases runs.len(),
{
    if runs.len() > 0 {
        law_recovery_accounts_for_every_open_run(runs.drop_last(), flags.drop_last());
        let n = runs.len() - 1;
        assert forall|k: Seq<char>|
            runs_where(runs, flags, false).contains(k) implies exists|i: int|
                0 <= i < runs.len() && runs[i] == k && !flags[i] by {
            if runs_where(runs.drop_last(), flags.drop_last(), false).contains(k) {
                let i = choose|i: int|
                    0 <= i < runs.drop_last().len() && runs.drop_last()[i] == k
                        && !flags.drop_last()[i];
                assert(runs[i] == k && !flags[i]);
            } else {
                let j = choose|j: int|
                    0 <= j < runs_where(runs, flags, false).len()
                        && runs_where(runs, flags, false)[j] == k;
                assert(runs[n] == k && !flags[n]);
            }
        }
        assert forall|k: Seq<char>|
            runs_where(runs, flags, true).contains(k) implies exists|i: int|
                0 <= i < runs.len() && runs[i] == k && flags[i] by {
            if runs_where(runs.drop_last(), flags.drop_last(), true).contains(k) {
                let i = choose|i: int|
                    0 <= i < runs.drop_last().len() && runs.drop_last()[i] == k
                        && flags.drop_last()[i];
                assert(runs[i] == k && flags[i]);
            } else {
                let j = choose|j: int|
                    0 <= j < runs_where(runs, flags, true).len()
                        && runs_where(runs, flags, true)[j] == k;
                assert(runs[n] == k && flags[n]);
            }
        }
    }
}

// -- The recovery sweep -----------------------------------------------------------------

/// Where a restart recovery stands.
#[derive(Debug, Clone, Copy, PartialEq, Eq, Structural)]
pub enum RecoveryPhase {
    Start,
    ReadingOpenRuns,
    ReadingCheckpoints,
    /// Closing the interrupted runs one by one.
    Interrupting,
    Sweeping,
    /// Closing the automation sessions of the interrupted runs one by one.
    Finalizing,
    Done,
}

/// A recovery in progress: the open runs, how they were split, the next
/// one to close, and the side effects swept.
pub struct RecoveryState<E> {
    pub phase: RecoveryPhase,
    pub open_runs: Vec<String>,
    pub interrupted: Vec<String>,
    pub waiting: Vec<String>,
    pub next: usize,
    pub swept: Vec<E>,
}

/// What the host reports.
pub enum RecoveryEvent<E> {
    Begin,
    /// The ledger's open runs.
    OpenRuns(Result<Vec<String>, String>),
    /// For each open run, whether its latest checkpoint is recoverable.
    Checkpoints(Result<Vec<bool>, String>),
    /// A ledger transition or a session finalization.
    Done(Result<(), String>),
    /// The side effects swept to uncertain.
    Swept(Result<Vec<E>, String>),
}

/// What the host does next.
pub enum RecoveryAction<E> {
    ReadOpenRuns,
    /// Read the latest checkpoint of each of these runs.
    ReadCheckpoints { runs: Vec<String> },
    /// Close `run_id` in the ledger with `run.interrupted` by `system`,
    /// reason `crashed`.
    Interrupt { run_id: String },
    /// Sweep the planned and executing side effects of these runs to
    /// uncertain.
    Sweep { runs: Vec<String> },
    /// Close the automation session `session_id` as interrupted.
    FinalizeSession { session_id: String },
    Finish(RecoveryReport<E>),
    Fail(String),
    Ignore,
}

/// The automation session of a run.
pub open spec fn run_session(run_id: Seq<char>) -> Seq<char> {
    "__run__"@ + run_id
}

/// A recovery that has not begun.
pub fn new_recovery<E>() -> (s: RecoveryState<E>)
    ensures
        s.phase == RecoveryPhase::Start,
        s.open_runs@.len() == 0 && s.interrupted@.len() == 0 && s.waiting@.len() == 0 && s.swept@.len() == 0,
        s.next == 0,
{
    RecoveryState {
        phase: RecoveryPhase::Start,
        open_runs: Vec::new(),
        interrupted: Vec::new(),
        waiting: Vec::new(),
        next: 0,
        swept: Vec::new(),
    }
}

fn copy_names(v: &Vec<String>) -> (r: Vec<String>)
    ensures
        names(r@) == names(v@),
{
    let mut out: Vec<String> = Vec::new();
    let mut i: usize = 0;
    while i < v.len()
        invariant
            i <= v.len(),
            names(out@) == names(v@).subrange(0, i as int),
        decreases v.len() - i,
    {
        let name = owned(v[i].as_str());
        proof {
            lemma_names_push(out@, name);
            assert(names(v@).subrange(0, i + 1) =~= names(v@).subrange(0, i as int).push(v@[i as int]@));
        }
        out.push(name);
        i = i + 1;
    }
    proof {
        assert(names(v@).subrange(0, i as int) =~= names(v@));
    }
    out
}

/// The step after the runs up to `next` were closed: close the next one,
/// or sweep, or finalize the sessions.
fn after_interrupts<E>(s: RecoveryState<E>) -> (r: (RecoveryState<E>, RecoveryAction<E>))
    requires
        s.next <= s.interrupted@.len(),
    ensures
        r.0.next == s.next && r.0.interrupted == s.interrupted && r.0.waiting == s.waiting,
        s.next < s.interrupted@.len() ==> r.0 == (RecoveryState { phase: RecoveryPhase::Interrupting, ..s }) && (r.1 matches RecoveryAction::Interrupt {
            run_id,
        } && run_id@ == s.interrupted@[s.next as int]@),
        s.next == s.interrupted@.len() && s.interrupted@.len() > 0 ==> r.0 == (RecoveryState {
            phase: RecoveryPhase::Sweeping,
            ..s
        }) && (r.1 matches RecoveryAction::Sweep { runs } && names(runs@) == names(s.interrupted@)),
        s.interrupted@.len() == 0 ==> r.0.phase == RecoveryPhase::Done && (r.1 matches RecoveryAction::Finish(rep)
            && rep.interrupted_runs@.len() == 0 && names(rep.recovered_waiting@) == names(s.waiting@)
            && rep.swept_side_effects@.len() == 0),
{
    if s.next < s.interrupted.len() {
        let run_id = owned(s.interrupted[s.next].as_str());
        (RecoveryState { phase: RecoveryPhase::Interrupting, ..s }, RecoveryAction::Interrupt { run_id })
    } else if s.interrupted.len() > 0 {
        let runs = copy_names(&s.interrupted);
        (RecoveryState { phase: RecoveryPhase::Sweeping, ..s }, RecoveryAction::Sweep { runs })
    } else {
        let waiting = copy_names(&s.waiting);
        let report = RecoveryReport { interrupted_runs: Vec::new(), recovered_waiting: waiting, swept_side_effects: Vec::new() };
        (
            RecoveryState { phase: RecoveryPhase::Done, ..s },
            RecoveryAction::Finish(report),
        )
    }
}

/// The step after the sessions up to `next` were finalized.
fn after_finalized<E>(s: RecoveryState<E>) -> (r: (RecoveryState<E>, RecoveryAction<E>))
    requires
        s.next <= s.interrupted@.len(),
    ensures
        r.0.next == s.next && r.0.interrupted == s.interrupted && r.0.waiting == s.waiting,
        s.next < s.interrupted@.len() ==> r.0 == (RecoveryState { phase: RecoveryPhase::Finalizing, ..s }) && (r.1 matches RecoveryAction::FinalizeSession {
            session_id,
        } && session_id@ == run_session(s.interrupted@[s.next as int]@)),
        s.next == s.interrupted@.len() ==> r.0.phase == RecoveryPhase::Done && (r.1 matches RecoveryAction::Finish(rep)
            && names(rep.interrupted_runs@) == names(s.interrupted@) && names(rep.recovered_waiting@) == names(
            s.waiting@,
        ) && rep.swept_side_effects@ == s.swept@),
{
    if s.next < s.interrupted.len() {
        let session_id = concat2("__run__", s.interrupted[s.next].as_str());
        (RecoveryState { phase: RecoveryPhase::Finalizing, ..s }, RecoveryAction::FinalizeSession { session_id })
    } else {
        let interrupted = copy_names(&s.interrupted);
        let waiting = copy_names(&s.waiting);
        let mut s = s;
        let mut swept: Vec<E> = Vec::new();
        std::mem::swap(&mut swept, &mut s.swept);
        let report = RecoveryReport { interrupted_runs: interrupted, recovered_waiting: waiting, swept_side_effects: swept };
        (RecoveryState { phase: RecoveryPhase::Done, ..s }, RecoveryAction::Finish(report))
    }
}

/// The next step of a restart recovery. Open runs paused on a human action
/// stay open; every other open run is closed as interrupted, its stale side
/// effects are swept to uncertain (never re-executed), and its automation
/// session is closed. Any failure ends the recovery with that error.
pub fn recovery_step<E>(s: RecoveryState<E>, event: RecoveryEvent<E>) -> (r: (RecoveryState<E>, RecoveryAction<E>))
    requires
        s.next <= s.interrupted@.len(),
    ensures
        r.0.next <= r.0.interrupted@.len(),
        s.phase == RecoveryPhase::Start ==> (event is Begin ==> r.0.phase == RecoveryPhase::ReadingOpenRuns
            && r.1 is ReadOpenRuns),
        s.phase == RecoveryPhase::ReadingOpenRuns ==> (event matches RecoveryEvent::OpenRuns(o) ==> match o {
            Err(e) => r.0.phase == RecoveryPhase::Done && r.1 == RecoveryAction::<E>::Fail(e),
            Ok(runs) => if runs@.len() == 0 {
                r.0.phase == RecoveryPhase::Done && (r.1 matches RecoveryAction::Finish(rep) && rep.interrupted_runs@.len()
                    == 0 && rep.recovered_waiting@.len() == 0 && rep.swept_side_effects@.len() == 0)
            } else {
                r.0.phase == RecoveryPhase::ReadingCheckpoints && names(r.0.open_runs@) == names(runs@) && (r.1 matches RecoveryAction::ReadCheckpoints {
                    runs: asked,
                } && names(asked@) == names(runs@))
            },
        }),
        s.phase == RecoveryPhase::ReadingCheckpoints ==> (event matches RecoveryEvent::Checkpoints(c) ==> match c {
            Err(e) => r.0.phase == RecoveryPhase::Done && r.1 == RecoveryAction::<E>::Fail(e),
            Ok(flags) => flags@.len() == s.open_runs@.len() ==> {
                &&& names(r.0.interrupted@) == runs_where(names(s.open_runs@), flags@, false)
                &&& names(r.0.waiting@) == runs_where(names(s.open_runs@), flags@, true)
                &&& r.0.next == 0
                &&& r.0.interrupted@.len() > 0 ==> r.0.phase == RecoveryPhase::Interrupting && (r.1 matches RecoveryAction::Interrupt {
                    run_id,
                } && run_id@ == r.0.interrupted@[0]@)
                &&& r.0.interrupted@.len() == 0 ==> r.0.phase == RecoveryPhase::Done && (r.1 matches RecoveryAction::Finish(
                    rep,
                ) && rep.interrupted_runs@.len() == 0 && names(rep.recovered_waiting@) == names(r.0.waiting@)
                    && rep.swept_side_effects@.len() == 0)
            },
        }),
        s.phase == RecoveryPhase::Interrupting ==> (event matches RecoveryEvent::Done(d) ==> match d {
            Err(e) => r.0.phase == RecoveryPhase::Done && r.1 == RecoveryAction::<E>::Fail(e),
            Ok(_) => s.next < s.interrupted@.len() ==> {
                &&& r.0.next == s.next + 1
                &&& r.0.interrupted == s.interrupted && r.0.waiting == s.waiting
                &&& s.next + 1 < s.interrupted@.len() ==> r.0.phase == RecoveryPhase::Interrupting && (r.1 matches RecoveryAction::Interrupt {
                    run_id,
                } && run_id@ == s.interrupted@[s.next + 1]@)
                &&& s.next + 1 == s.interrupted@.len() ==> r.0.phase == RecoveryPhase::Sweeping && (r.1 matches RecoveryAction::Sweep {
                    runs,
                } && names(runs@) == names(s.interrupted@))
            },
        }),
        s.phase == RecoveryPhase::Sweeping ==> (event matches RecoveryEvent::Swept(w) ==> match w {
            Err(e) => r.0.phase == RecoveryPhase::Done && r.1 == RecoveryAction::<E>::Fail(e),
            Ok(entries) => r.0.next == 0 && r.0.interrupted == s.interrupted && r.0.waiting == s.waiting && (
            s.interrupted@.len() > 0 ==> r.0.phase == RecoveryPhase::Finalizing && r.0.swept == entries && (r.1 matches RecoveryAction::FinalizeSession {
                session_id,
            } && session_id@ == run_session(s.interrupted@[0]@))),
        }),
        s.phase == RecoveryPhase::Finalizing ==> (event matches RecoveryEvent::Done(d) ==> match d {
            Err(e) => r.0.phase == RecoveryPhase::Done && r.1 == RecoveryAction::<E>::Fail(e),
            Ok(_) => s.next < s.interrupted@.len() ==> {
                &&& s.next + 1 < s.interrupted@.len() ==> r.0.phase == RecoveryPhase::Finalizing && (r.1 matches RecoveryAction::FinalizeSession {
                    session_id,
                } && session_id@ == run_session(s.interrupted@[s.next + 1]@))
                &&& s.next + 1 == s.interrupted@.len() ==> r.0.phase == RecoveryPhase::Done && (r.1 matches RecoveryAction::Finish(
                    rep,
                ) && names(rep.interrupted_runs@) == names(s.interrupted@) && names(rep.recovered_waiting@) == names(
                    s.waiting@,
                ) && rep.swept_side_effects@ == s.swept@)
            },
        }),
        s.phase == RecoveryPhase::Done ==> r.1 is Ignore,
{
    match (s.phase, event) {
        (RecoveryPhase::Start, RecoveryEvent::Begin) => (
            RecoveryState { phase: RecoveryPhase::ReadingOpenRuns, ..s },
            RecoveryAction::ReadOpenRuns,
        ),
        (RecoveryPhase::ReadingOpenRuns, RecoveryEvent::OpenRuns(o)) => match o {
            Err(e) => (RecoveryState { phase: RecoveryPhase::Done, ..s }, RecoveryAction::Fail(e)),
            Ok(runs) => {
                if runs.len() == 0 {
                    let report = RecoveryReport {
                        interrupted_runs: Vec::new(),
                        recovered_waiting: Vec::new(),
                        swept_side_effects: Vec::new(),
                    };
                    (RecoveryState { phase: RecoveryPhase::Done, ..s }, RecoveryAction::Finish(report))
                } else {
                    let asked = copy_names(&runs);
                    (
                        RecoveryState { phase: RecoveryPhase::ReadingCheckpoints, open_runs: runs, ..s },
                        RecoveryAction::ReadCheckpoints { runs: asked },
                    )
                }
            },
        },
        (RecoveryPhase::ReadingCheckpoints, RecoveryEvent::Checkpoints(c)) => match c {
            Err(e) => (RecoveryState { phase: RecoveryPhase::Done, ..s }, RecoveryAction::Fail(e)),
            Ok(flags) => {
                if flags.len() != s.open_runs.len() {
                    (s, RecoveryAction::Ignore)
                } else {
                    let (interrupted, waiting) = partition_open_runs(&s.open_runs, &flags);
                    after_interrupts(RecoveryState { interrupted, waiting, next: 0, ..s })
                }
            },
        },
        (RecoveryPhase::Interrupting, RecoveryEvent::Done(d)) => match d {
            Err(e) => (RecoveryState { phase: RecoveryPhase::Done, ..s }, RecoveryAction::Fail(e)),
            Ok(()) => {
                if s.next < s.interrupted.len() {
                    let next = s.next + 1;
                    after_interrupts(RecoveryState { next, ..s })
                } else {
                    (s, RecoveryAction::Ignore)
                }
            },
        },
        (RecoveryPhase::Sweeping, RecoveryEvent::Swept(w)) => match w {
            Err(e) => (RecoveryState { phase: RecoveryPhase::Done, ..s }, RecoveryAction::Fail(e)),
            Ok(entries) => after_finalized(RecoveryState { swept: entries, next: 0, ..s }),
        },
        (RecoveryPhase::Finalizing, RecoveryEvent::Done(d)) => match d {
            Err(e) => (RecoveryState { phase: RecoveryPhase::Done, ..s }, RecoveryAction::Fail(e)),
            Ok(()) => {
                if s.next < s.interrupted.len() {
                    let next = s.next + 1;
                    after_finalized(RecoveryState { next, ..s })
                } else {
                    (s, RecoveryAction::Ignore)
                }
            },
        },
        (_, _) => (s, RecoveryAction::Ignore),
    }
}

} // verus!
