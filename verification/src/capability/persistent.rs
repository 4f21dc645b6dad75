//! Persistent process-backed capability runner.
//!
//! Used for stateful optional workers such as browser automation. One worker
//! process serves job after job: each request is one ABI job line and one
//! grant-scoped secret payload line on its standard input, answered by
//! progress frames and one terminal result on its standard output. The host
//! owns the process and its pipes; this module decides what is checked
//! before a job is written, when a worker may start, how supervision ends
//! and what each ending reports. A run that ends in any other way than a
//! result for the job leaves the worker to be stopped (`reset`).

use vstd::prelude::*;

use crate::binary64::Binary64;
use crate::capability::abi::{
    fault_matches, grant_fault, CapabilityExitState, CapabilityJob, CapabilityProgress, CapabilityResult,
    GrantFault, GrantValidationError, CAPABILITY_ABI_VERSION,
};
use crate::capability::runners::{
    abi_marker, first_secret_key, is_bootstrap_variable, is_failure, process_environment, text_at, StartRefusal,
};
use crate::strmap::{find, StrMap};
use crate::text::{concat2, decimal_of, names, str_eq};

verus! {

/// A runner whose worker process outlives the jobs it serves.
#[derive(Debug)]
pub struct PersistentWorkerProcessRunner {
    pub program: String,
    pub arguments: Vec<String>,
    pub environment: StrMap<String>,
}

/// The refusal of a job before it is written to the worker: the run was
/// cancelled, the job speaks another ABI version, or its execution grant
/// does not hold at `now`.
pub open spec fn dispatch_refusal(job: CapabilityJob, cancelled: bool, now: Binary64) -> Option<StartRefusal> {
    if cancelled {
        Some(StartRefusal::Cancelled)
    } else if job.abi_version != CAPABILITY_ABI_VERSION {
        Some(StartRefusal::AbiMismatch)
    } else if grant_fault(job.boundary.execution_epoch, job.boundary.expires_at, now) is Some {
        Some(StartRefusal::Grant(grant_fault(job.boundary.execution_epoch, job.boundary.expires_at, now)->0))
    } else {
        None
    }
}

/// `r` is `base` with `lines` appended to its stderr diagnostics.
pub open spec fn with_stderr_of(base: CapabilityResult, lines: Seq<String>, r: CapabilityResult) -> bool {
    &&& r == (CapabilityResult { diagnostics: r.diagnostics, ..base })
    &&& r.diagnostics matches Some(d) && match base.diagnostics {
        Some(b) => d.stderr_lines@ == b.stderr_lines@ + lines && d.error_code == b.error_code
            && d.error_message == b.error_message,
        None => d.stderr_lines@ == lines && d.error_code is None && d.error_message is None,
    }
}

/// Why starting a worker process failed.
#[derive(Debug)]
pub enum SpawnFault {
    /// The process did not start; the operating system's error.
    Start(String),
    Stdin,
    Stdout,
    Stderr,
    /// A pipe reader could not be started; its error.
    StdoutReader(String),
    StderrReader(String),
}

pub open spec fn spawn_fault_message(f: SpawnFault) -> Seq<char> {
    match f {
        SpawnFault::Start(e) => "persistent worker start failed: "@ + e@,
        SpawnFault::Stdin => "persistent worker stdin unavailable"@,
        SpawnFault::Stdout => "persistent worker stdout unavailable"@,
        SpawnFault::Stderr => "persistent worker stderr unavailable"@,
        SpawnFault::StdoutReader(e) => "persistent worker stdout reader failed: "@ + e@,
        SpawnFault::StderrReader(e) => "persistent worker stderr reader failed: "@ + e@,
    }
}

/// What to do with the worker session before a job is written.
#[derive(Debug, Clone, Copy, PartialEq, Eq, Structural)]
pub enum SessionPlan {
    /// A live worker serves the job.
    Reuse,
    /// No worker is running: start one.
    Start,
    /// The worker has exited: stop what is left of it, then start one.
    Restart,
}

/// The plan for the worker session, from whether one exists and whether
/// its process has exited.
pub fn session_plan(has_session: bool, exited: bool) -> (p: SessionPlan)
    ensures
        p == if !has_session {
            SessionPlan::Start
        } else if exited {
            SessionPlan::Restart
        } else {
            SessionPlan::Reuse
        },
{
    if !has_session {
        SessionPlan::Start
    } else if exited {
        SessionPlan::Restart
    } else {
        SessionPlan::Reuse
    }
}

impl PersistentWorkerProcessRunner {
    pub fn new(program: String, arguments: Vec<String>) -> (r: Self)
        ensures
            r.program == program,
            r.arguments == arguments,
            r.environment@.len() == 0,
    {
        PersistentWorkerProcessRunner { program, arguments, environment: StrMap::new() }
    }

    /// The explicit environment the worker is given.
    pub fn with_environment(self, environment: StrMap<String>) -> (r: Self)
        ensures
            r.program == self.program,
            r.arguments == self.arguments,
            r.environment == environment,
    {
        PersistentWorkerProcessRunner { environment, ..self }
    }

    /// The complete environment of the worker process (see
    /// `process_environment`).
    pub fn worker_environment(&self, inherited: &StrMap<String>) -> (r: StrMap<String>)
        ensures
            forall|k: Seq<char>|
                #![trigger text_at(r@, k)]
                text_at(r@, k) == if is_bootstrap_variable(k) && find(inherited@, k) is Some {
                    text_at(inherited@, k)
                } else if k == abi_marker() {
                    Some(decimal_of(CAPABILITY_ABI_VERSION as nat))
                } else {
                    text_at(self.environment@, k)
                },
    {
        process_environment(&self.environment, inherited)
    }

    /// The result a job gets without being written to the worker, or
    /// `None` when it may be written.
    pub fn refuse_before_dispatch(&self, job: &CapabilityJob, cancelled: bool, now: Binary64) -> (r: Option<
        CapabilityResult,
    >)
        ensures
            match dispatch_refusal(*job, cancelled, now) {
                None => r is None,
                Some(StartRefusal::Cancelled) => r matches Some(res) && res.is_bare(
                    job.job_id@,
                    CapabilityExitState::Cancelled,
                    now,
                ) && res.result is None && res.diagnostics is None,
                Some(StartRefusal::AbiMismatch) => r matches Some(res) && is_failure(
                    res,
                    job.job_id@,
                    "worker ABI version mismatch"@,
                    "abi_mismatch"@,
                    now,
                ),
                Some(StartRefusal::Grant(f)) => r matches Some(res) && exists|e: GrantValidationError|
                    fault_matches(f, e) && #[trigger] is_failure(res, job.job_id@, e.message_of(), e.code_of(), now),
                Some(StartRefusal::SecretInEnvironment(_)) => false,
            },
    {
        if cancelled {
            return Some(CapabilityResult::cancelled(job.job_id.as_str(), now));
        }
        if job.abi_version != CAPABILITY_ABI_VERSION {
            return Some(
                CapabilityResult::failed(job.job_id.as_str(), "worker ABI version mismatch", Some("abi_mismatch"), now),
            );
        }
        match job.boundary.validate_execution_grant_at(now) {
            Err(grant_error) => {
                let message = grant_error.message();
                let r = CapabilityResult::failed(job.job_id.as_str(), message.as_str(), Some(grant_error.code()), now);
                proof {
                    assert(is_failure(r, job.job_id@, grant_error.message_of(), grant_error.code_of(), now));
                }
                Some(r)
            },
            Ok(()) => None,
        }
    }

    /// The result of a job whose worker may not start: an explicit
    /// environment variable named like one of the job's granted secrets.
    /// `None` when a worker may start.
    pub fn refuse_start(&self, job: &CapabilityJob, now: Binary64) -> (r: Option<CapabilityResult>)
        ensures
            match first_secret_key(self.environment@, names(job.boundary.secrets@)) {
                Some(k) => r matches Some(res) && is_failure(
                    res,
                    job.job_id@,
                    "persistent worker environment must not contain a granted secret key: "@ + k,
                    "worker_start"@,
                    now,
                ),
                None => r is None,
            },
    {
        let n = self.environment.len();
        let mut i: usize = 0;
        proof {
            assert(self.environment@.subrange(0, n as int) =~= self.environment@);
        }
        while i < n
            invariant
                i <= n == self.environment@.len(),
                first_secret_key(self.environment@, names(job.boundary.secrets@)) == first_secret_key(
                    self.environment@.subrange(i as int, n as int),
                    names(job.boundary.secrets@),
                ),
            decreases n - i,
        {
            let (key, _) = self.environment.entry(i);
            proof {
                let rest = self.environment@.subrange(i as int, n as int);
                assert(rest.drop_first() =~= self.environment@.subrange(i + 1, n as int));
                assert(rest[0].0 == key@);
            }
            let mut j: usize = 0;
            let mut granted = false;
            while j < job.boundary.secrets.len()
                invariant
                    j <= job.boundary.secrets.len(),
                    granted <==> exists|x: int| 0 <= x < j && names(job.boundary.secrets@)[x] == key@,
                decreases job.boundary.secrets.len() - j,
            {
                if str_eq(job.boundary.secrets[j].as_str(), key.as_str()) {
                    granted = true;
                }
                proof {
                    assert(names(job.boundary.secrets@)[j as int] == job.boundary.secrets@[j as int]@);
                }
                j = j + 1;
            }
            if granted {
                let message = concat2("persistent worker environment must not contain a granted secret key: ", key.as_str());
                return Some(CapabilityResult::failed(job.job_id.as_str(), message.as_str(), Some("worker_start"), now));
            }
            i = i + 1;
        }
        None
    }
}

/// The result of a job whose worker failed to start.
pub fn spawn_failure(job_id: &str, fault: SpawnFault, now: Binary64) -> (r: CapabilityResult)
    ensures
        is_failure(r, job_id@, spawn_fault_message(fault), "worker_start"@, now),
{
    let message = match fault {
        SpawnFault::Start(e) => concat2("persistent worker start failed: ", e.as_str()),
        SpawnFault::Stdin => "persistent worker stdin unavailable".to_string(),
        SpawnFault::Stdout => "persistent worker stdout unavailable".to_string(),
        SpawnFault::Stderr => "persistent worker stderr unavailable".to_string(),
        SpawnFault::StdoutReader(e) => concat2("persistent worker stdout reader failed: ", e.as_str()),
        SpawnFault::StderrReader(e) => concat2("persistent worker stderr reader failed: ", e.as_str()),
    };
    CapabilityResult::failed(job_id, message.as_str(), Some("worker_start"), now)
}

/// The result of a job that could not be encoded for the worker; `error`
/// is the encoder's message.
pub fn input_encoding_failure(job_id: &str, error: &str, now: Binary64) -> (r: CapabilityResult)
    ensures
        is_failure(r, job_id@, "serialize worker job: "@ + error@, "worker_input"@, now),
{
    let message = concat2("serialize worker job: ", error);
    CapabilityResult::failed(job_id, message.as_str(), Some("worker_input"), now)
}

/// The result of a job whose input could not be written; the worker is
/// stopped.
pub fn input_write_failure(job_id: &str, now: Binary64) -> (r: CapabilityResult)
    ensures
        is_failure(r, job_id@, "persistent worker input failed"@, "worker_stdin"@, now),
{
    CapabilityResult::failed(job_id, "persistent worker input failed", Some("worker_stdin"), now)
}

/// The input written for one job: the job line, then the secrets line.
/// `secrets` is `{}` when the secret values could not be encoded.
pub fn request_lines(job_line: &str, secrets_line: Option<&str>) -> (r: String)
    ensures
        r@ == job_line@ + "\n"@ + (match secrets_line {
            Some(s) => s@,
            None => "{}"@,
        }) + "\n"@,
{
    let mut out = concat2(job_line, "\n");
    match secrets_line {
        Some(s) => out.append(s),
        None => out.append("{}"),
    }
    out.append("\n");
    out
}

/// The supervision of one job: the stderr lines seen so far and the
/// job's deadline.
#[derive(Debug)]
pub struct PersistentRun {
    pub job_id: String,
    pub timeout_secs: u64,
    pub stderr_lines: Vec<String>,
}

/// The seconds a job may take: its timeout, at least one second.
pub open spec fn deadline_secs(timeout_secs: u64) -> int {
    if timeout_secs < 1 {
        1
    } else {
        timeout_secs as int
    }
}

impl PersistentRun {
    pub fn new(job: &CapabilityJob) -> (r: Self)
        ensures
            r.job_id@ == job.job_id@,
            r.timeout_secs == job.timeout_secs,
            r.stderr_lines@.len() == 0,
    {
        PersistentRun { job_id: job.job_id.clone(), timeout_secs: job.timeout_secs, stderr_lines: Vec::new() }
    }

    pub fn absorb_stderr(&mut self, line: String)
        ensures
            final(self).stderr_lines@ == old(self).stderr_lines@.push(line),
            final(self).job_id == old(self).job_id,
            final(self).timeout_secs == old(self).timeout_secs,
    {
        self.stderr_lines.push(line);
    }

    /// Checked before each wait for output, `elapsed_ms` after the input
    /// was written: cancellation ends the run first, then the deadline.
    pub fn forced_end(&self, cancelled: bool, elapsed_ms: u64) -> (r: Option<CapabilityExitState>)
        ensures
            r == if cancelled {
                Some(CapabilityExitState::Cancelled)
            } else if elapsed_ms / 1000 >= deadline_secs(self.timeout_secs) {
                Some(CapabilityExitState::TimedOut)
            } else {
                None
            },
    {
        let limit: u64 = if self.timeout_secs < 1 {
            1
        } else {
            self.timeout_secs
        };
        if cancelled {
            Some(CapabilityExitState::Cancelled)
        } else if elapsed_ms / 1000 >= limit {
            Some(CapabilityExitState::TimedOut)
        } else {
            None
        }
    }

    /// Whether a decoded progress frame belongs to this job and is
    /// forwarded.
    pub fn forwards(&self, progress: &CapabilityProgress) -> (r: bool)
        ensures
            r == (progress.job_id@ == self.job_id@),
    {
        str_eq(progress.job_id.as_str(), self.job_id.as_str())
    }

    /// The result of a run ended by cancellation or the deadline; the
    /// worker is stopped.
    pub fn end_forced(self, state: CapabilityExitState, now: Binary64) -> (r: CapabilityResult)
        requires
            state == CapabilityExitState::Cancelled || state == CapabilityExitState::TimedOut,
        ensures
            exists|base: CapabilityResult|
                base.is_bare(self.job_id@, state, now) && base.result is None && base.diagnostics is None
                    && #[trigger] with_stderr_of(base, self.stderr_lines@, r),
    {
        let base = if state == CapabilityExitState::Cancelled {
            CapabilityResult::cancelled(self.job_id.as_str(), now)
        } else {
            CapabilityResult::timed_out(self.job_id.as_str(), now)
        };
        let ghost b = base;
        let r = base.with_stderr(self.stderr_lines);
        assert(with_stderr_of(b, self.stderr_lines@, r));
        r
    }

    /// The result of a run whose worker closed its output before a result;
    /// the worker is stopped.
    pub fn end_disconnected(self, now: Binary64) -> (r: CapabilityResult)
        ensures
            exists|base: CapabilityResult|
                is_failure(
                    base,
                    self.job_id@,
                    "persistent worker exited before returning a result"@,
                    "worker_exit"@,
                    now,
                ) && #[trigger] with_stderr_of(base, self.stderr_lines@, r),
    {
        let base = CapabilityResult::failed(
            self.job_id.as_str(),
            "persistent worker exited before returning a result",
            Some("worker_exit"),
            now,
        );
        let ghost b = base;
        let r = base.with_stderr(self.stderr_lines);
        assert(with_stderr_of(b, self.stderr_lines@, r));
        r
    }

    /// The result of a run given a decoded result frame, and whether the
    /// worker must be stopped: a result for another job is a protocol
    /// failure.
    pub fn end_with(self, result: CapabilityResult, now: Binary64) -> (r: (CapabilityResult, bool))
        ensures
            result.job_id@ == self.job_id@ ==> !r.1 && with_stderr_of(result, self.stderr_lines@, r.0),
            result.job_id@ != self.job_id@ ==> r.1 && exists|base: CapabilityResult|
                is_failure(
                    base,
                    self.job_id@,
                    "persistent worker returned a result for the wrong job"@,
                    "worker_protocol"@,
                    now,
                ) && #[trigger] with_stderr_of(base, self.stderr_lines@, r.0),
    {
        if !str_eq(result.job_id.as_str(), self.job_id.as_str()) {
            let base = CapabilityResult::failed(
                self.job_id.as_str(),
                "persistent worker returned a result for the wrong job",
                Some("worker_protocol"),
                now,
            );
            let ghost b = base;
            assert(is_failure(
                b,
                self.job_id@,
                "persistent worker returned a result for the wrong job"@,
                "worker_protocol"@,
                now,
            ));
            let lines = self.stderr_lines;
            let ghost lv = lines@;
            let failure = base.with_stderr(lines);
            assert(with_stderr_of(b, lv, failure));
            let out = (failure, true);
            assert(with_stderr_of(b, lv, out.0));
            assert(is_failure(
                b,
                self.job_id@,
                "persistent worker returned a result for the wrong job"@,
                "worker_protocol"@,
                now,
            ));
            assert(exists|base: CapabilityResult|
                is_failure(
                    base,
                    self.job_id@,
                    "persistent worker returned a result for the wrong job"@,
                    "worker_protocol"@,
                    now,
                ) && #[trigger] with_stderr_of(base, lv, out.0));
            return out;
        }
        let ghost t = result;
        let r = result.with_stderr(self.stderr_lines);
        assert(with_stderr_of(t, self.stderr_lines@, r));
        (r, false)
    }
}

} // verus!
