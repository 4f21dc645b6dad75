//! Process-backed capability workers and the MCP bridge.
//!
//! A worker is started with one ABI job on its standard input. Its standard
//! output may carry progress frames followed by exactly one typed result;
//! the Runtime owns the timeout and cancellation and force-terminates the
//! process when either fires. This module holds what is decided around that
//! process: the checks a job must pass before a worker starts, the clean
//! environment it is given, how each output line is taken, when supervision
//! stops, and the result reported at the end. Starting the process, moving
//! bytes through its pipes and decoding JSON are the host's work.

use vstd::prelude::*;

use crate::binary64::Binary64;
use crate::capability::abi::{
    fault_matches, grant_fault, same_job_except_call, CapabilityExitState, CapabilityJob,
    CapabilityResult, GrantFault, GrantValidationError, CAPABILITY_ABI_VERSION,
};
use crate::json::{Json, JsonView};
use crate::strmap::{find, StrMap};
use crate::text::{concat2, decimal, decimal_of, names, owned, str_eq};

verus! {

/// Process-backed runner for Python, PowerShell, shell and other controlled
/// workers.
#[derive(Debug)]
pub struct WorkerProcessRunner {
    pub program: String,
    pub arguments: Vec<String>,
    pub environment: StrMap<String>,
}

impl WorkerProcessRunner {
    pub fn new(program: String, arguments: Vec<String>) -> (r: Self)
        ensures
            r.program == program,
            r.arguments == arguments,
            r.environment@.len() == 0,
    {
        WorkerProcessRunner { program, arguments, environment: StrMap::new() }
    }

    /// The explicit environment the worker is given (besides the ABI marker
    /// and the operating system's bootstrap variables).
    pub fn with_environment(self, environment: StrMap<String>) -> (r: Self)
        ensures
            r.program == self.program,
            r.arguments == self.arguments,
            r.environment == environment,
    {
        WorkerProcessRunner { environment, ..self }
    }

    /// A Python worker: the interpreter runs `script`.
    pub fn python(program: String, script: String) -> (r: Self)
        ensures
            r.program == program,
            r.arguments@ == seq![script],
            r.environment@.len() == 0,
    {
        WorkerProcessRunner::new(program, vec![script])
    }

    /// A PowerShell worker: no logo, no profile, non-interactive, runs
    /// `script` as a file.
    pub fn powershell(program: String, script: String) -> (r: Self)
        ensures
            r.program == program,
            names(r.arguments@) == seq!["-NoLogo"@, "-NoProfile"@, "-NonInteractive"@, "-File"@, script@],
            r.environment@.len() == 0,
    {
        let arguments = vec![
            "-NoLogo".to_string(),
            "-NoProfile".to_string(),
            "-NonInteractive".to_string(),
            "-File".to_string(),
            script,
        ];
        proof {
            assert(names(arguments@) =~= seq!["-NoLogo"@, "-NoProfile"@, "-NonInteractive"@, "-File"@, script@]);
        }
        WorkerProcessRunner::new(program, arguments)
    }

    /// A shell worker: the shell runs `script`.
    pub fn shell(program: String, script: String) -> (r: Self)
        ensures
            r.program == program,
            r.arguments@ == seq![script],
            r.environment@.len() == 0,
    {
        WorkerProcessRunner::new(program, vec![script])
    }
}

/// The first explicit environment variable named like a granted secret.
pub open spec fn first_secret_key(env: Seq<(Seq<char>, String)>, secrets: Seq<Seq<char>>) -> Option<Seq<char>>
    decreases env.len(),
{
    if env.len() == 0 {
        None
    } else if secrets.contains(env[0].0) {
        Some(env[0].0)
    } else {
        first_secret_key(env.drop_first(), secrets)
    }
}

/// Why a job is refused before any worker process starts.
pub enum StartRefusal {
    Cancelled,
    AbiMismatch,
    Grant(GrantFault),
    SecretInEnvironment(Seq<char>),
}

/// The refusal of a job before start, checked in this order: the run was
/// cancelled, the job speaks another ABI version, its execution grant does
/// not hold at `now` (a defensive second check; the host checks first), or
/// an explicit environment variable would shadow a granted secret.
pub open spec fn start_refusal(
    environment: Seq<(Seq<char>, String)>,
    job: CapabilityJob,
    cancelled: bool,
    now: Binary64,
) -> Option<StartRefusal> {
    if cancelled {
        Some(StartRefusal::Cancelled)
    } else if job.abi_version != CAPABILITY_ABI_VERSION {
        Some(StartRefusal::AbiMismatch)
    } else if grant_fault(job.boundary.execution_epoch, job.boundary.expires_at, now) is Some {
        Some(StartRefusal::Grant(grant_fault(job.boundary.execution_epoch, job.boundary.expires_at, now)->0))
    } else if first_secret_key(environment, names(job.boundary.secrets@)) is Some {
        Some(StartRefusal::SecretInEnvironment(first_secret_key(environment, names(job.boundary.secrets@))->0))
    } else {
        None
    }
}

/// `r` is a fresh failure of `job_id` with `message` and `code`.
pub open spec fn is_failure(r: CapabilityResult, job_id: Seq<char>, message: Seq<char>, code: Seq<char>, now: Binary64) -> bool {
    &&& r.is_bare(job_id, CapabilityExitState::Failed, now)
    &&& r.result is None
    &&& r.diagnostics matches Some(d) && d.stderr_lines@.len() == 0 && (d.error_message matches Some(m)
        && m@ == message) && (d.error_code matches Some(c) && c@ == code)
}

fn first_secret_in(environment: &StrMap<String>, secrets: &Vec<String>) -> (r: Option<String>)
    ensures
        match first_secret_key(environment@, names(secrets@)) {
            Some(k) => r matches Some(s) && s@ == k,
            None => r is None,
        },
{
    let n = environment.len();
    let mut i: usize = 0;
    proof {
        assert(environment@.subrange(0, n as int) =~= environment@);
    }
    while i < n
        invariant
            i <= n == environment@.len(),
            first_secret_key(environment@, names(secrets@)) == first_secret_key(
                environment@.subrange(i as int, n as int),
                names(secrets@),
            ),
        decreases n - i,
    {
        let (key, _) = environment.entry(i);
        proof {
            let rest = environment@.subrange(i as int, n as int);
            assert(rest.drop_first() =~= environment@.subrange(i + 1, n as int));
            assert(rest[0].0 == key@);
        }
        let mut j: usize = 0;
        let mut granted = false;
        while j < secrets.len()
            invariant
                j <= secrets.len(),
                granted <==> exists|x: int| 0 <= x < j && names(secrets@)[x] == key@,
            decreases secrets.len() - j,
        {
            if str_eq(secrets[j].as_str(), key.as_str()) {
                granted = true;
            }
            proof {
                assert(names(secrets@)[j as int] == secrets@[j as int]@);
            }
            j = j + 1;
        }
        if granted {
            return Some(key.clone());
        }
        i = i + 1;
    }
    None
}

impl WorkerProcessRunner {
    /// The result a job gets without any worker starting, or `None` when a
    /// worker may start.
    pub fn refuse_before_start(&self, job: &CapabilityJob, cancelled: bool, now: Binary64) -> (r: Option<
        CapabilityResult,
    >)
        ensures
            match start_refusal(self.environment@, *job, cancelled, now) {
                None => r is None,
                Some(StartRefusal::Cancelled) => r matches Some(res) && res.is_bare(
                    job.job_id@,
                    CapabilityExitState::Cancelled,
                    now,
                ) && res.result is None && res.diagnostics is None,
                Some(StartRefusal::AbiMismatch) => r matches Some(res) && is_failure(
                    res,
                    job.job_id@,
                    "worker ABI version mismatch"@,
                    "abi_mismatch"@,
                    now,
                ),
                Some(StartRefusal::Grant(f)) => r matches Some(res) && exists|e: GrantValidationError|
                    fault_matches(f, e) && #[trigger] is_failure(
                        res,
                        job.job_id@,
                        e.message_of(),
                        e.code_of(),
                        now,
                    ),
                Some(StartRefusal::SecretInEnvironment(k)) => r matches Some(res) && is_failure(
                    res,
                    job.job_id@,
                    "worker environment must not contain a granted secret key: "@ + k,
                    "secret_in_env"@,
                    now,
                ),
            },
    {
        if cancelled {
            return Some(CapabilityResult::cancelled(job.job_id.as_str(), now));
        }
        if job.abi_version != CAPABILITY_ABI_VERSION {
            return Some(
                CapabilityResult::failed(job.job_id.as_str(), "worker ABI version mismatch", Some("abi_mismatch"), now),
            );
        }
        match job.boundary.validate_execution_grant_at(now) {
            Err(grant_error) => {
                let message = grant_error.message();
                let r = CapabilityResult::failed(
                    job.job_id.as_str(),
                    message.as_str(),
                    Some(grant_error.code()),
                    now,
                );
                proof {
                    assert(is_failure(r, job.job_id@, grant_error.message_of(), grant_error.code_of(), now));
                }
                return Some(r);
            },
            Ok(()) => {},
        }
        match first_secret_in(&self.environment, &job.boundary.secrets) {
            Some(key) => {
                let message = concat2("worker environment must not contain a granted secret key: ", key.as_str());
                Some(CapabilityResult::failed(job.job_id.as_str(), message.as_str(), Some("secret_in_env"), now))
            },
            None => None,
        }
    }
}

/// The operating-system variables a worker inherits when they are set.
pub open spec fn is_bootstrap_variable(k: Seq<char>) -> bool {
    k == "SystemRoot"@ || k == "WINDIR"@ || k == "TEMP"@ || k == "TMP"@
}

/// The variable that tells a worker which ABI it is spoken to in.
pub open spec fn abi_marker() -> Seq<char> {
    "DELTA_CAPABILITY_ABI"@
}

/// The text of the string stored under `k`.
pub open spec fn text_at(m: Seq<(Seq<char>, String)>, k: Seq<char>) -> Option<Seq<char>> {
    match find(m, k) {
        Some(v) => Some(v@),
        None => None,
    }
}

/// The names of the bootstrap variables, for the host to read.
pub fn bootstrap_variables() -> (r: Vec<String>)
    ensures
        names(r@) == seq!["SystemRoot"@, "WINDIR"@, "TEMP"@, "TMP"@],
{
    let r = vec!["SystemRoot".to_string(), "WINDIR".to_string(), "TEMP".to_string(), "TMP".to_string()];
    assert(names(r@) =~= seq!["SystemRoot"@, "WINDIR"@, "TEMP"@, "TMP"@]);
    r
}

/// The complete environment of a worker process. Nothing is inherited but
/// the bootstrap variables the host found set (`inherited`); the ABI marker
/// names the ABI version; the runner's explicit variables come first and are
/// overridden by both. Granted secrets are delivered on standard input,
/// never here.
pub fn process_environment(explicit: &StrMap<String>, inherited: &StrMap<String>) -> (r: StrMap<String>)
    ensures
        forall|k: Seq<char>|
            #![trigger text_at(r@, k)]
            text_at(r@, k) == if is_bootstrap_variable(k) && find(inherited@, k) is Some {
                text_at(inherited@, k)
            } else if k == abi_marker() {
                Some(decimal_of(CAPABILITY_ABI_VERSION as nat))
            } else {
                text_at(explicit@, k)
            },
{
    let mut env = explicit.duplicate();
    env.insert("DELTA_CAPABILITY_ABI".to_string(), decimal(CAPABILITY_ABI_VERSION as u64));
    proof {
        reveal_strlit("DELTA_CAPABILITY_ABI");
        reveal_strlit("SystemRoot");
        reveal_strlit("WINDIR");
        reveal_strlit("TEMP");
        reveal_strlit("TMP");
    }
    let names_list = bootstrap_variables();
    proof {
        assert(names(names_list@).len() == names_list@.len());
    }
    let mut i: usize = 0;
    while i < names_list.len()
        invariant
            i <= names_list.len() == 4,
            names(names_list@) == seq!["SystemRoot"@, "WINDIR"@, "TEMP"@, "TMP"@],
            forall|k: Seq<char>|
                #![trigger text_at(env@, k)]
                text_at(env@, k) == if names(names_list@).subrange(0, i as int).contains(k) && find(
                    inherited@,
                    k,
                ) is Some {
                    text_at(inherited@, k)
                } else if k == abi_marker() {
                    Some(decimal_of(CAPABILITY_ABI_VERSION as nat))
                } else {
                    text_at(explicit@, k)
                },
        decreases names_list.len() - i,
    {
        let name = &names_list[i];
        proof {
            assert(names(names_list@)[i as int] == name@);
            assert(names(names_list@).subrange(0, i + 1) =~= names(names_list@).subrange(0, i as int).push(name@));
        }
        let ghost prefix = names(names_list@).subrange(0, i as int);
        let ghost before = env@;
        match inherited.get(name.as_str()) {
            Some(value) => {
                env.insert(name.clone(), value.clone());
            },
            None => {},
        }
        proof {
            assert forall|k: Seq<char>| #![trigger text_at(env@, k)]
                text_at(env@, k) == if prefix.push(name@).contains(k) && find(inherited@, k) is Some {
                    text_at(inherited@, k)
                } else if k == abi_marker() {
                    Some(decimal_of(CAPABILITY_ABI_VERSION as nat))
                } else {
                    text_at(explicit@, k)
                } by {
                assert(text_at(before, k) == text_at(before, k));
                if k == name@ {
                    assert(prefix.push(name@)[prefix.len() as int] == k);
                } else {
                    if prefix.push(name@).contains(k) {
                        let j = choose|j: int| 0 <= j < prefix.push(name@).len() && prefix.push(name@)[j] == k;
                        assert(prefix[j] == k);
                    }
                    if prefix.contains(k) {
                        let j = choose|j: int| 0 <= j < prefix.len() && prefix[j] == k;
                        assert(prefix.push(name@)[j] == k);
                    }
                }
            }
        }
        i = i + 1;
    }
    proof {
        assert(names(names_list@).subrange(0, 4) =~= seq!["SystemRoot"@, "WINDIR"@, "TEMP"@, "TMP"@]);
        assert forall|k: Seq<char>| #![trigger text_at(env@, k)]
            text_at(env@, k) == if is_bootstrap_variable(k) && find(inherited@, k) is Some {
                text_at(inherited@, k)
            } else if k == abi_marker() {
                Some(decimal_of(CAPABILITY_ABI_VERSION as nat))
            } else {
                text_at(explicit@, k)
            } by {
            let four = seq!["SystemRoot"@, "WINDIR"@, "TEMP"@, "TMP"@];
            if is_bootstrap_variable(k) {
                if k == "SystemRoot"@ {
                    assert(four[0] == k);
                } else if k == "WINDIR"@ {
                    assert(four[1] == k);
                } else if k == "TEMP"@ {
                    assert(four[2] == k);
                } else {
                    assert(four[3] == k);
                }
            } else {
                assert(!four.contains(k));
            }
        }
    }
    env
}

impl WorkerProcessRunner {
    /// The complete environment of this runner's worker process.
    pub fn worker_environment(&self, inherited: &StrMap<String>) -> (r: StrMap<String>)
        ensures
            forall|k: Seq<char>|
                #![trigger text_at(r@, k)]
                text_at(r@, k) == if is_bootstrap_variable(k) && find(inherited@, k) is Some {
                    text_at(inherited@, k)
                } else if k == abi_marker() {
                    Some(decimal_of(CAPABILITY_ABI_VERSION as nat))
                } else {
                    text_at(self.environment@, k)
                },
    {
        process_environment(&self.environment, inherited)
    }
}

/// The result of a job whose worker process did not start; `error` is the
/// operating system's error.
pub fn worker_start_failure(job_id: &str, error: &str, now: Binary64) -> (r: CapabilityResult)
    ensures
        is_failure(r, job_id@, "worker start failed: "@ + error@, "worker_start"@, now),
{
    let message = concat2("worker start failed: ", error);
    CapabilityResult::failed(job_id, message.as_str(), Some("worker_start"), now)
}

/// The result of a job whose input could not be written to the worker: the
/// job line, or, when `secrets`, the secrets line after it.
pub fn worker_input_failure(job_id: &str, secrets: bool, now: Binary64) -> (r: CapabilityResult)
    ensures
        is_failure(
            r,
            job_id@,
            if secrets {
                "worker secret delivery failed"@
            } else {
                "worker input failed"@
            },
            "worker_stdin"@,
            now,
        ),
{
    if secrets {
        CapabilityResult::failed(job_id, "worker secret delivery failed", Some("worker_stdin"), now)
    } else {
        CapabilityResult::failed(job_id, "worker input failed", Some("worker_stdin"), now)
    }
}

/// The result of a job that could not be encoded; `error` is the encoder's
/// message.
pub fn job_encoding_failure(job_id: &str, error: &str, now: Binary64) -> (r: CapabilityResult)
    ensures
        is_failure(r, job_id@, error@, "job_serialize"@, now),
{
    CapabilityResult::failed(job_id, error, Some("job_serialize"), now)
}

/// What a line of worker standard output that decoded as JSON is.
#[derive(Debug)]
pub enum WorkerFrame {
    /// A progress frame; the payload is its `data`, or the frame itself.
    Progress(Json),
    /// A candidate result: the `data` of a `result` frame (null when it
    /// has none), or any other frame itself.
    Result(Json),
}

pub open spec fn frame_kind(frame: JsonView) -> (bool, JsonView) {
    if frame.str_field("type"@) == Some("progress"@) {
        (
            true,
            match frame.get("data"@) {
                Some(d) => d,
                None => frame,
            },
        )
    } else if frame.str_field("type"@) == Some("result"@) {
        (
            false,
            match frame.get("data"@) {
                Some(d) => d,
                None => JsonView::Null,
            },
        )
    } else {
        (false, frame)
    }
}

/// Classify a decoded output frame.
pub fn classify_frame(frame: &Json) -> (r: WorkerFrame)
    ensures
        match r {
            WorkerFrame::Progress(p) => frame_kind(frame@).0 && p@ == frame_kind(frame@).1,
            WorkerFrame::Result(p) => !frame_kind(frame@).0 && p@ == frame_kind(frame@).1,
        },
{
    let kind = frame.str_field("type");
    let is_progress = match kind {
        Some(k) => str_eq(k, "progress"),
        None => false,
    };
    let is_result = match kind {
        Some(k) => str_eq(k, "result"),
        None => false,
    };
    if is_progress {
        match frame.get("data") {
            Some(d) => WorkerFrame::Progress(d.deep_clone()),
            None => WorkerFrame::Progress(frame.deep_clone()),
        }
    } else if is_result {
        match frame.get("data") {
            Some(d) => WorkerFrame::Result(d.deep_clone()),
            None => WorkerFrame::Result(Json::Null),
        }
    } else {
        WorkerFrame::Result(frame.deep_clone())
    }
}

/// The standard output and error a worker produced, and its terminal
/// result once one arrived.
#[derive(Debug)]
pub struct WorkerOutput {
    pub stdout_lines: Vec<String>,
    pub stderr_lines: Vec<String>,
    pub result: Option<CapabilityResult>,
}

impl WorkerOutput {
    pub fn new() -> (r: Self)
        ensures
            r.stdout_lines@.len() == 0,
            r.stderr_lines@.len() == 0,
            r.result is None,
    {
        WorkerOutput { stdout_lines: Vec::new(), stderr_lines: Vec::new(), result: None }
    }

    /// A line of standard error is kept as a diagnostic.
    pub fn absorb_stderr(&mut self, line: String)
        ensures
            final(self).stderr_lines@ == old(self).stderr_lines@.push(line),
            final(self).stdout_lines == old(self).stdout_lines,
            final(self).result == old(self).result,
    {
        self.stderr_lines.push(line);
    }

    /// A line of standard output that is not a typed frame is kept as
    /// untyped output.
    pub fn absorb_untyped(&mut self, line: String)
        ensures
            final(self).stdout_lines@ == old(self).stdout_lines@.push(line),
            final(self).stderr_lines == old(self).stderr_lines,
            final(self).result == old(self).result,
    {
        self.stdout_lines.push(line);
    }

    /// A candidate result frame: `typed` is its payload decoded as a result,
    /// when it decodes. Exactly one terminal result is accepted; a second
    /// one turns the outcome into a protocol failure.
    pub fn absorb_result(&mut self, line: String, typed: Option<CapabilityResult>, now: Binary64)
        ensures
            match typed {
                None => final(self).stdout_lines@ == old(self).stdout_lines@.push(line)
                    && final(self).result == old(self).result,
                Some(t) => final(self).stdout_lines == old(self).stdout_lines && (match old(self).result {
                    None => final(self).result == Some(t),
                    Some(_) => final(self).result matches Some(f) && is_failure(
                        f,
                        t.job_id@,
                        "worker emitted multiple terminal results"@,
                        "worker_protocol"@,
                        now,
                    ),
                }),
            },
            final(self).stderr_lines == old(self).stderr_lines,
    {
        match typed {
            None => {
                self.stdout_lines.push(line);
            },
            Some(t) => {
                if self.result.is_some() {
                    self.result = Some(
                        CapabilityResult::failed(
                            t.job_id.as_str(),
                            "worker emitted multiple terminal results",
                            Some("worker_protocol"),
                            now,
                        ),
                    );
                } else {
                    self.result = Some(t);
                }
            },
        }
    }
}

/// Whether a job's hard timeout has elapsed (0 means no timeout).
pub fn timeout_reached(timeout_secs: u64, elapsed_secs: u64) -> (r: bool)
    ensures
        r == (timeout_secs > 0 && elapsed_secs >= timeout_secs),
{
    timeout_secs > 0 && elapsed_secs >= timeout_secs
}

/// Whether supervision must force the worker down, and with which state:
/// cancellation wins over the timeout.
pub fn forced_stop(cancelled: bool, timeout_secs: u64, elapsed_secs: u64) -> (r: Option<CapabilityExitState>)
    ensures
        r == if cancelled {
            Some(CapabilityExitState::Cancelled)
        } else if timeout_secs > 0 && elapsed_secs >= timeout_secs {
            Some(CapabilityExitState::TimedOut)
        } else {
            None
        },
{
    if cancelled {
        Some(CapabilityExitState::Cancelled)
    } else if timeout_reached(timeout_secs, elapsed_secs) {
        Some(CapabilityExitState::TimedOut)
    } else {
        None
    }
}

/// What a poll of the worker process found.
#[derive(Debug)]
pub enum WorkerStatus {
    Running,
    /// The process ended; `status` is its exit status as text.
    Exited { success: bool, status: String },
    /// Waiting on the process failed with this error.
    WaitFailed(String),
}

impl WorkerOutput {
    /// Take a poll of the process into account; answers whether supervision
    /// is over. An unsuccessful exit without a result, or a failed wait,
    /// becomes the result.
    pub fn observe(&mut self, job_id: &str, status: WorkerStatus, now: Binary64) -> (done: bool)
        ensures
            final(self).stdout_lines == old(self).stdout_lines,
            final(self).stderr_lines == old(self).stderr_lines,
            match status {
                WorkerStatus::Running => !done && final(self).result == old(self).result,
                WorkerStatus::Exited { success, status } => done && (if !success && old(self).result is None {
                    final(self).result matches Some(f) && is_failure(
                        f,
                        job_id@,
                        "worker exited with "@ + status@,
                        "worker_exit"@,
                        now,
                    )
                } else {
                    final(self).result == old(self).result
                }),
                WorkerStatus::WaitFailed(e) => done && (final(self).result matches Some(f) && is_failure(
                    f,
                    job_id@,
                    "worker wait failed: "@ + e@,
                    "worker_wait"@,
                    now,
                )),
            },
    {
        match status {
            WorkerStatus::Running => false,
            WorkerStatus::Exited { success, status } => {
                if !success && self.result.is_none() {
                    let message = concat2("worker exited with ", status.as_str());
                    self.result = Some(
                        CapabilityResult::failed(job_id, message.as_str(), Some("worker_exit"), now),
                    );
                }
                true
            },
            WorkerStatus::WaitFailed(error) => {
                let message = concat2("worker wait failed: ", error.as_str());
                self.result = Some(CapabilityResult::failed(job_id, message.as_str(), Some("worker_wait"), now));
                true
            },
        }
    }
}

/// The protocol failure of a worker that gave no typed result.
pub open spec fn no_result_message(untyped: nat) -> Seq<char> {
    if untyped == 0 {
        "worker returned no typed result"@
    } else {
        "worker returned no typed result ("@ + decimal_of(untyped) + " untyped stdout line(s))"@
    }
}

/// `r` is `base` with `lines` appended to its diagnostics, or `base` itself
/// when there are none.
pub open spec fn with_stderr_lines(base: CapabilityResult, lines: Seq<String>, r: CapabilityResult) -> bool {
    if lines.len() == 0 {
        r == base
    } else {
        &&& r == (CapabilityResult { diagnostics: r.diagnostics, ..base })
        &&& r.diagnostics matches Some(d) && match base.diagnostics {
            Some(b) => d.stderr_lines@ == b.stderr_lines@ + lines && d.error_code == b.error_code
                && d.error_message == b.error_message,
            None => d.stderr_lines@ == lines && d.error_code is None && d.error_message is None,
        }
    }
}

/// The stderr lines a result carries.
pub open spec fn carried_stderr(r: CapabilityResult) -> Seq<String> {
    match r.diagnostics {
        Some(d) => d.stderr_lines@,
        None => Seq::empty(),
    }
}

/// The result of a worker run, from how supervision ended and what the
/// worker wrote. A forced stop reports cancellation or timeout; otherwise
/// the worker's typed result, or a protocol failure when it gave none.
/// Stderr lines are attached as diagnostics. A result for another job or
/// ABI version is replaced by a protocol failure.
pub fn finish_worker_run(
    job_id: &str,
    forced: Option<CapabilityExitState>,
    output: WorkerOutput,
    now: Binary64,
) -> (r: CapabilityResult)
    ensures
        forced == Some(CapabilityExitState::Cancelled) ==> exists|base: CapabilityResult|
            base.is_bare(job_id@, CapabilityExitState::Cancelled, now) && base.result is None
                && base.diagnostics is None && #[trigger] with_stderr_lines(base, output.stderr_lines@, r),
        forced == Some(CapabilityExitState::TimedOut) ==> exists|base: CapabilityResult|
            base.is_bare(job_id@, CapabilityExitState::TimedOut, now) && base.result is None
                && base.diagnostics is None && #[trigger] with_stderr_lines(base, output.stderr_lines@, r),
        forced != Some(CapabilityExitState::Cancelled) && forced != Some(CapabilityExitState::TimedOut) ==> match output.result {
            None => exists|base: CapabilityResult|
                is_failure(base, job_id@, no_result_message(output.stdout_lines@.len()), "worker_protocol"@, now)
                    && #[trigger] with_stderr_lines(base, output.stderr_lines@, r),
            Some(t) => if t.abi_version == CAPABILITY_ABI_VERSION && t.job_id@ == job_id@ {
                with_stderr_lines(t, output.stderr_lines@, r)
            } else {
                exists|mid: CapabilityResult, base: CapabilityResult|
                    with_stderr_lines(t, output.stderr_lines@, mid) && is_failure(
                        base,
                        job_id@,
                        "worker result did not match the requested ABI job"@,
                        "worker_protocol"@,
                        now,
                    ) && #[trigger] with_stderr_lines(base, carried_stderr(mid), r)
            },
        },
{
    let WorkerOutput { stdout_lines, stderr_lines, result } = output;
    let ghost stderr = stderr_lines@;
    let base = match forced {
        Some(CapabilityExitState::Cancelled) => CapabilityResult::cancelled(job_id, now),
        Some(CapabilityExitState::TimedOut) => CapabilityResult::timed_out(job_id, now),
        _ => match result {
            Some(t) => t,
            None => {
                let message = if stdout_lines.len() == 0 {
                    owned("worker returned no typed result")
                } else {
                    let count = decimal(stdout_lines.len() as u64);
                    let mut m = owned("worker returned no typed result (");
                    m.append(count.as_str());
                    m.append(" untyped stdout line(s))");
                    m
                };
                CapabilityResult::failed(job_id, message.as_str(), Some("worker_protocol"), now)
            },
        },
    };
    let ghost base_view = base;
    let result = if stderr_lines.len() > 0 {
        base.with_stderr(stderr_lines)
    } else {
        base
    };
    proof {
        assert(with_stderr_lines(base_view, stderr, result));
    }
    if result.abi_version != CAPABILITY_ABI_VERSION || !str_eq(result.job_id.as_str(), job_id) {
        let ghost mid = result;
        let carried = match result.diagnostics {
            Some(d) => d.stderr_lines,
            None => Vec::new(),
        };
        let ghost carried_view = carried@;
        proof {
            assert(carried_view =~= carried_stderr(mid));
        }
        let failure = CapabilityResult::failed(
            job_id,
            "worker result did not match the requested ABI job",
            Some("worker_protocol"),
            now,
        );
        let ghost failure_view = failure;
        let r = if carried.len() > 0 {
            failure.with_stderr(carried)
        } else {
            failure
        };
        proof {
            assert(with_stderr_lines(failure_view, carried_view, r));
            assert(is_failure(
                failure_view,
                job_id@,
                "worker result did not match the requested ABI job"@,
                "worker_protocol"@,
                now,
            ));
            assert(with_stderr_lines(base_view, stderr, mid));
        }
        return r;
    }
    result
}

/// MCP runner adapter: an MCP tool call runs as a typed `mcp.call` job of a
/// configured MCP bridge worker.
#[derive(Debug)]
pub struct McpCapabilityRunner {
    pub server_id: String,
    pub worker: WorkerProcessRunner,
}

/// The arguments of a bridge job: the server, the tool and its arguments.
pub open spec fn bridge_arguments(server_id: Seq<char>, job: CapabilityJob) -> JsonView {
    JsonView::Object(
        seq![
            ("arguments"@, job.arguments@),
            ("server_id"@, JsonView::Str(server_id)),
            ("tool"@, JsonView::Str(job.capability_id@)),
        ],
    )
}

impl McpCapabilityRunner {
    pub fn new(server_id: String, worker: WorkerProcessRunner) -> (r: Self)
        ensures
            r.server_id == server_id,
            r.worker == worker,
    {
        McpCapabilityRunner { server_id, worker }
    }

    /// The job the bridge worker runs for a model tool call: the same job,
    /// asking for `mcp.call` with the server, the tool and its arguments.
    pub fn bridge_job(&self, job: &CapabilityJob) -> (r: CapabilityJob)
        ensures
            same_job_except_call(r, *job),
            r.capability_id@ == "mcp.call"@,
            r.arguments@ == bridge_arguments(self.server_id@, *job),
    {
        let members = vec![
            ("arguments".to_string(), job.arguments.deep_clone()),
            ("server_id".to_string(), Json::String(self.server_id.clone())),
            ("tool".to_string(), Json::String(job.capability_id.clone())),
        ];
        let arguments = Json::Object(members);
        proof {
            crate::json::lemma_members_view(members@);
            assert(crate::json::members_view(members@) =~= seq![
                ("arguments"@, job.arguments@),
                ("server_id"@, JsonView::Str(self.server_id@)),
                ("tool"@, JsonView::Str(job.capability_id@)),
            ]);
        }
        job.redirected("mcp.call".to_string(), arguments)
    }
}

/// A worker never sees a granted secret in its environment: when a job is
/// admitted, none of the runner's explicit variables is named like a
/// granted secret, and the environment holds nothing but those variables,
/// the ABI marker and the bootstrap variables.
pub proof fn law_admitted_worker_environment_holds_no_granted_secret(
    environment: Seq<(Seq<char>, String)>,
    job: CapabilityJob,
    cancelled: bool,
    now: Binary64,
)
    requires
        start_refusal(environment, job, cancelled, now) is None,
    ensures
        forall|i: int| 0 <= i < environment.len() ==> !names(job.boundary.secrets@).contains(#[trigger] environment[i].0),
{
    lemma_no_secret_key(environment, names(job.boundary.secrets@));
}

proof fn lemma_no_secret_key(env: Seq<(Seq<char>, String)>, secrets: Seq<Seq<char>>)
    requires
        first_secret_key(env, secrets) is None,
    ensures
        forall|i: int| 0 <= i < env.len() ==> !secrets.contains(#[trigger] env[i].0),
    decreases env.len(),
{
    if env.len() > 0 {
        lemma_no_secret_key(env.drop_first(), secrets);
        assert forall|i: int| 0 <= i < env.len() implies !secrets.contains(#[trigger] env[i].0) by {
            if i > 0 {
                assert(env[i] == env.drop_first()[i - 1]);
            }
        }
    }
}

} // verus!
