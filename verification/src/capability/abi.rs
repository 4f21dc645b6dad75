//! Versioned capability data contract: jobs, grants, boundaries and results.

use vstd::prelude::*;

use crate::binary64::Binary64;
use crate::json::Json;
use crate::strmap::StrMap;
use crate::text::owned;

verus! {

pub const CAPABILITY_ABI_VERSION: u32 = 2;

/// A file the capability is permitted to read, with its hash and size at job
/// start.
#[derive(Debug)]
pub struct CapabilityInputFile {
    pub path: String,
    pub sha256: Option<String>,
    pub size: Option<u64>,
}

/// Permission grants scoped to a single job: the most a capability may do.
#[derive(Debug)]
pub struct CapabilityGrants {
    pub read_roots: Vec<String>,
    pub write_roots: Vec<String>,
    pub network: Vec<String>,
    pub secrets: Vec<String>,
    pub exec_allowed: bool,
    /// Unix time at which the grant becomes active; `None` = immediately.
    pub execution_epoch: Option<Binary64>,
    /// Unix time at which the grant expires; `None` = never.
    pub expires_at: Option<Binary64>,
}

impl CapabilityGrants {
    /// Grants that allow nothing beyond reading (no roots yet).
    pub open spec fn is_empty_grant(self) -> bool {
        &&& self.read_roots@.len() == 0
        &&& self.write_roots@.len() == 0
        &&& self.network@.len() == 0
        &&& self.secrets@.len() == 0
        &&& !self.exec_allowed
        &&& self.execution_epoch is None
        &&& self.expires_at is None
    }

    /// The read-only floor: no write roots, no exec, no network, no secrets.
    pub fn read_only() -> (g: Self)
        ensures
            g.is_empty_grant(),
    {
        CapabilityGrants::default()
    }
}

impl Default for CapabilityGrants {
    fn default() -> (g: Self)
        ensures
            g.is_empty_grant(),
    {
        CapabilityGrants {
            read_roots: Vec::new(),
            write_roots: Vec::new(),
            network: Vec::new(),
            secrets: Vec::new(),
            exec_allowed: false,
            execution_epoch: None,
            expires_at: None,
        }
    }
}

/// The effective, auditable resource boundary for one capability invocation.
#[derive(Debug)]
pub struct CapabilityBoundary {
    pub read_roots: Vec<String>,
    pub write_roots: Vec<String>,
    pub network: Vec<String>,
    pub exec_allowed: bool,
    pub secrets: Vec<String>,
    pub destructive: bool,
    /// Which policy decision or registration granted this boundary.
    pub provenance: String,
    pub execution_epoch: Option<Binary64>,
    pub expires_at: Option<Binary64>,
}

impl Default for CapabilityBoundary {
    fn default() -> (b: Self)
        ensures
            b.read_roots@.len() == 0,
            b.write_roots@.len() == 0,
            b.network@.len() == 0,
            !b.exec_allowed,
            b.secrets@.len() == 0,
            !b.destructive,
            b.provenance@.len() == 0,
            b.execution_epoch is None,
            b.expires_at is None,
    {
        CapabilityBoundary {
            read_roots: Vec::new(),
            write_roots: Vec::new(),
            network: Vec::new(),
            exec_allowed: false,
            secrets: Vec::new(),
            destructive: false,
            provenance: String::new(),
            execution_epoch: None,
            expires_at: None,
        }
    }
}

/// Stable error codes for execution grant validation. A runner is never
/// reached when any of these conditions holds.
#[derive(Debug, PartialEq, Eq)]
pub enum GrantValidationError {
    /// The execution epoch has not yet arrived.
    GrantNotActive,
    /// The grant has passed its expiry.
    GrantExpired,
    /// The execution epoch is after the expiry.
    InvalidGrantWindow,
    /// The grant data is malformed.
    GrantInvalid(String),
}

impl GrantValidationError {
    pub open spec fn code_of(&self) -> Seq<char> {
        match self {
            GrantValidationError::GrantNotActive => "grant_not_active"@,
            GrantValidationError::GrantExpired => "grant_expired"@,
            GrantValidationError::InvalidGrantWindow => "invalid_grant_window"@,
            GrantValidationError::GrantInvalid(_) => "grant_invalid"@,
        }
    }

    pub open spec fn message_of(&self) -> Seq<char> {
        match self {
            GrantValidationError::GrantNotActive => "grant_not_active: execution epoch has not yet arrived"@,
            GrantValidationError::GrantExpired => "grant_expired: grant has passed its expiry"@,
            GrantValidationError::InvalidGrantWindow => "invalid_grant_window: execution epoch is after expiry"@,
            GrantValidationError::GrantInvalid(msg) => "grant_invalid: "@ + msg@,
        }
    }

    /// The stable error code.
    pub fn code(&self) -> (c: &'static str)
        ensures
            c@ == self.code_of(),
    {
        match self {
            GrantValidationError::GrantNotActive => "grant_not_active",
            GrantValidationError::GrantExpired => "grant_expired",
            GrantValidationError::InvalidGrantWindow => "invalid_grant_window",
            GrantValidationError::GrantInvalid(_) => "grant_invalid",
        }
    }

    /// The human-readable message (`code: explanation`).
    pub fn message(&self) -> (m: String)
        ensures
            m@ == self.message_of(),
    {
        match self {
            GrantValidationError::GrantNotActive => owned("grant_not_active: execution epoch has not yet arrived"),
            GrantValidationError::GrantExpired => owned("grant_expired: grant has passed its expiry"),
            GrantValidationError::InvalidGrantWindow => owned("invalid_grant_window: execution epoch is after expiry"),
            GrantValidationError::GrantInvalid(msg) => crate::text::concat2("grant_invalid: ", msg.as_str()),
        }
    }
}

/// A grant timestamp is a finite, non-negative Unix time.
pub open spec fn valid_timestamp(t: Binary64) -> bool {
    t.finite() && !t.less(Binary64::zero())
}

/// The outcome of execution grant validation at time `now`, checked in this
/// order: malformed epoch, malformed expiry, inverted window, epoch not yet
/// reached, expiry reached.
pub enum GrantFault {
    InvalidEpoch,
    InvalidExpiry,
    InvertedWindow,
    NotActive,
    Expired,
}

pub open spec fn grant_fault(epoch: Option<Binary64>, expires: Option<Binary64>, now: Binary64) -> Option<GrantFault> {
    if epoch matches Some(e) && !valid_timestamp(e) {
        Some(GrantFault::InvalidEpoch)
    } else if expires matches Some(x) && !valid_timestamp(x) {
        Some(GrantFault::InvalidExpiry)
    } else if epoch matches Some(e) && expires matches Some(x) && x.less(e) {
        Some(GrantFault::InvertedWindow)
    } else if epoch matches Some(e) && now.less(e) {
        Some(GrantFault::NotActive)
    } else if expires matches Some(x) && x.less_eq(now) {
        Some(GrantFault::Expired)
    } else {
        None
    }
}

/// The error reported for a grant fault.
pub open spec fn fault_matches(fault: GrantFault, e: GrantValidationError) -> bool {
    match fault {
        GrantFault::InvalidEpoch => e matches GrantValidationError::GrantInvalid(m) && m@
            == "execution_epoch is not a valid Unix timestamp"@,
        GrantFault::InvalidExpiry => e matches GrantValidationError::GrantInvalid(m) && m@
            == "expires_at is not a valid Unix timestamp"@,
        GrantFault::InvertedWindow => e is InvalidGrantWindow,
        GrantFault::NotActive => e is GrantNotActive,
        GrantFault::Expired => e is GrantExpired,
    }
}

fn is_valid_timestamp(t: Binary64) -> (r: bool)
    ensures
        r == valid_timestamp(t),
{
    t.is_finite() && !t.lt(Binary64::from_bits(0))
}

/// Why a boundary's execution window is structurally invalid: its epoch is
/// after its expiry.
#[derive(Debug)]
pub struct BoundaryWindowError {
    pub execution_epoch: Binary64,
    pub expires_at: Binary64,
    pub provenance: String,
}

impl CapabilityBoundary {
    /// Derive the effective boundary from grants at least privilege;
    /// `provenance` records the grant source.
    pub fn from_grants(grants: &CapabilityGrants, provenance: String) -> (b: Self)
        ensures
            b.read_roots@ == grants.read_roots@,
            b.write_roots@ == grants.write_roots@,
            b.network@ == grants.network@,
            b.exec_allowed == grants.exec_allowed,
            b.secrets@ == grants.secrets@,
            !b.destructive,
            b.provenance == provenance,
            b.execution_epoch == grants.execution_epoch,
            b.expires_at == grants.expires_at,
    {
        CapabilityBoundary {
            read_roots: grants.read_roots.clone(),
            write_roots: grants.write_roots.clone(),
            network: grants.network.clone(),
            exec_allowed: grants.exec_allowed,
            secrets: grants.secrets.clone(),
            destructive: false,
            provenance,
            execution_epoch: grants.execution_epoch,
            expires_at: grants.expires_at,
        }
    }

    /// Structural validation: an epoch after the expiry is rejected (a
    /// comparison that is false whenever either value is NaN). Empty roots
    /// are valid for workspace-less capabilities.
    pub fn validate(&self) -> (r: Result<(), BoundaryWindowError>)
        ensures
            r is Err <==> (self.execution_epoch matches Some(e) && self.expires_at matches Some(x)
                && x.less(e)),
            r matches Err(w) ==> Some(w.execution_epoch) == self.execution_epoch && Some(
                w.expires_at,
            ) == self.expires_at && w.provenance@ == self.provenance@,
    {
        if let (Some(epoch), Some(expires)) = (self.execution_epoch, self.expires_at) {
            if expires.lt(epoch) {
                return Err(
                    BoundaryWindowError {
                        execution_epoch: epoch,
                        expires_at: expires,
                        provenance: self.provenance.clone(),
                    },
                );
            }
        }
        Ok(())
    }

    /// Fail-closed execution grant validation at time `now`.
    pub fn validate_execution_grant_at(&self, now: Binary64) -> (r: Result<(), GrantValidationError>)
        ensures
            r is Ok <==> grant_fault(self.execution_epoch, self.expires_at, now) is None,
            r matches Err(e) ==> fault_matches(
                grant_fault(self.execution_epoch, self.expires_at, now)->0,
                e,
            ),
    {
        if let Some(epoch) = self.execution_epoch {
            if !is_valid_timestamp(epoch) {
                return Err(
                    GrantValidationError::GrantInvalid(
                        owned("execution_epoch is not a valid Unix timestamp"),
                    ),
                );
            }
        }
        if let Some(expires) = self.expires_at {
            if !is_valid_timestamp(expires) {
                return Err(
                    GrantValidationError::GrantInvalid(owned("expires_at is not a valid Unix timestamp")),
                );
            }
        }
        if let (Some(epoch), Some(expires)) = (self.execution_epoch, self.expires_at) {
            if expires.lt(epoch) {
                return Err(GrantValidationError::InvalidGrantWindow);
            }
        }
        if let Some(epoch) = self.execution_epoch {
            if now.lt(epoch) {
                return Err(GrantValidationError::GrantNotActive);
            }
        }
        if let Some(expires) = self.expires_at {
            if expires.le(now) {
                return Err(GrantValidationError::GrantExpired);
            }
        }
        Ok(())
    }

    /// The window has passed at `now` (never, without an expiry).
    pub fn is_expired_at(&self, now: Binary64) -> (r: bool)
        ensures
            r == (self.expires_at matches Some(x) && x.less_eq(now)),
    {
        match self.expires_at {
            Some(expires) => expires.le(now),
            None => false,
        }
    }

    /// The epoch has not yet arrived at `now` (never, without an epoch).
    pub fn is_pending_at(&self, now: Binary64) -> (r: bool)
        ensures
            r == (self.execution_epoch matches Some(e) && now.less(e)),
    {
        match self.execution_epoch {
            Some(epoch) => now.lt(epoch),
            None => false,
        }
    }

    /// Only reads are permitted: no writes, exec, network or secrets.
    pub fn is_read_only(&self) -> (r: bool)
        ensures
            r == (self.write_roots@.len() == 0 && !self.exec_allowed && self.network@.len() == 0
                && self.secrets@.len() == 0),
    {
        self.write_roots.len() == 0 && !self.exec_allowed && self.network.len() == 0 && self.secrets.len()
            == 0
    }
}

/// A validated grant is never used outside its window: at any time at which
/// validation passes, the epoch has arrived and the expiry has not.
pub proof fn law_valid_grant_is_inside_window(
    epoch: Option<Binary64>,
    expires: Option<Binary64>,
    now: Binary64,
)
    requires
        valid_timestamp(now),
        grant_fault(epoch, expires, now) is None,
    ensures
        epoch matches Some(e) ==> e.less_eq(now),
        expires matches Some(x) ==> now.less(x),
{
}

/// A grant whose epoch lies after its expiry is refused at every time, so no
/// runner is ever reached with it.
pub proof fn law_inverted_window_never_validates(e: Binary64, x: Binary64, now: Binary64)
    requires
        valid_timestamp(e),
        valid_timestamp(x),
        x.less(e),
    ensures
        grant_fault(Some(e), Some(x), now) == Some(GrantFault::InvertedWindow),
{
}

/// The full capability invocation contract sent to a worker runner.
#[derive(Debug)]
pub struct CapabilityJob {
    pub abi_version: u32,
    pub capability_id: String,
    pub job_id: String,
    pub run_id: Option<String>,
    pub session_id: Option<String>,
    pub workspace: Option<String>,
    pub input_files: Vec<CapabilityInputFile>,
    pub arguments: Json,
    pub grants: CapabilityGrants,
    pub boundary: CapabilityBoundary,
    /// Hard execution timeout in seconds; 0 = none.
    pub timeout_secs: u64,
    pub artifact_staging_dir: Option<String>,
    /// Resolved secret values for this job; never part of the wire form.
    pub secret_values: StrMap<String>,
}

impl CapabilityJob {
    pub fn new(capability_id: &str, job_id: &str, arguments: Json) -> (j: Self)
        ensures
            j.abi_version == CAPABILITY_ABI_VERSION,
            j.capability_id@ == capability_id@,
            j.job_id@ == job_id@,
            j.run_id is None,
            j.session_id is None,
            j.workspace is None,
            j.input_files@.len() == 0,
            j.arguments == arguments,
            j.grants.is_empty_grant(),
            j.boundary.read_roots@.len() == 0 && j.boundary.write_roots@.len() == 0
                && j.boundary.network@.len() == 0 && !j.boundary.exec_allowed
                && j.boundary.secrets@.len() == 0 && !j.boundary.destructive
                && j.boundary.provenance@.len() == 0 && j.boundary.execution_epoch is None
                && j.boundary.expires_at is None,
            j.timeout_secs == 0,
            j.artifact_staging_dir is None,
            j.secret_values@.len() == 0,
    {
        CapabilityJob {
            abi_version: CAPABILITY_ABI_VERSION,
            capability_id: owned(capability_id),
            job_id: owned(job_id),
            run_id: None,
            session_id: None,
            workspace: None,
            input_files: Vec::new(),
            arguments,
            grants: CapabilityGrants::default(),
            boundary: CapabilityBoundary::default(),
            timeout_secs: 0,
            artifact_staging_dir: None,
            secret_values: StrMap::new(),
        }
    }

    pub fn version() -> (v: u32)
        ensures
            v == CAPABILITY_ABI_VERSION,
    {
        CAPABILITY_ABI_VERSION
    }

    pub fn workspace(self, path: &str) -> (j: Self)
        ensures
            j.workspace matches Some(w) && w@ == path@,
            j == (CapabilityJob { workspace: j.workspace, ..self }),
    {
        CapabilityJob { workspace: Some(owned(path)), ..self }
    }

    pub fn grants(self, grants: CapabilityGrants) -> (j: Self)
        ensures
            j == (CapabilityJob { grants, ..self }),
    {
        CapabilityJob { grants, ..self }
    }

    /// Add a permitted input file.
    pub fn running_f_in(self, file: CapabilityInputFile) -> (j: Self)
        ensures
            j.input_files@ == self.input_files@.push(file),
            j == (CapabilityJob { input_files: j.input_files, ..self }),
    {
        let mut j = self;
        j.input_files.push(file);
        j
    }

    pub fn with_timeout(self, secs: u64) -> (j: Self)
        ensures
            j == (CapabilityJob { timeout_secs: secs, ..self }),
    {
        CapabilityJob { timeout_secs: secs, ..self }
    }
}

/// Progress frame a worker emits during execution.
#[derive(Debug)]
pub struct CapabilityProgress {
    pub job_id: String,
    /// 0..=1 coarse progress, or -1 for indeterminate.
    pub fraction: Binary64,
    pub stage: Option<String>,
    pub message: Option<String>,
}

/// A staged artifact produced by a job, awaiting formalization.
#[derive(Debug)]
pub struct CapabilityArtifact {
    pub staging_path: String,
    pub relative_path: String,
    pub kind: Option<String>,
    pub sha256: Option<String>,
    pub size: Option<u64>,
    pub incomplete: bool,
}

/// Stderr lines and a typed error, when any.
#[derive(Debug)]
pub struct CapabilityDiagnostics {
    pub stderr_lines: Vec<String>,
    pub error_code: Option<String>,
    pub error_message: Option<String>,
}

/// The terminal state of a capability job.
#[derive(Debug, Clone, Copy, PartialEq, Eq, Structural)]
pub enum CapabilityExitState {
    Completed,
    Failed,
    Cancelled,
    TimedOut,
}

impl CapabilityExitState {
    /// The name used on the wire.
    pub open spec fn wire_name(self) -> Seq<char> {
        match self {
            CapabilityExitState::Completed => "completed"@,
            CapabilityExitState::Failed => "failed"@,
            CapabilityExitState::Cancelled => "cancelled"@,
            CapabilityExitState::TimedOut => "timed_out"@,
        }
    }

    pub fn wire_str(self) -> (s: &'static str)
        ensures
            s@ == self.wire_name(),
    {
        match self {
            CapabilityExitState::Completed => "completed",
            CapabilityExitState::Failed => "failed",
            CapabilityExitState::Cancelled => "cancelled",
            CapabilityExitState::TimedOut => "timed_out",
        }
    }
}

/// The typed result a worker runner returns after a job terminates.
#[derive(Debug)]
pub struct CapabilityResult {
    pub abi_version: u32,
    pub job_id: String,
    pub state: CapabilityExitState,
    pub result: Option<Json>,
    pub output: Option<String>,
    pub artifacts: Vec<CapabilityArtifact>,
    pub diagnostics: Option<CapabilityDiagnostics>,
    /// Unix time at which the job terminated.
    pub finished_at: Binary64,
}

impl CapabilityResult {
    /// A fresh result of `state` for `job_id`: no output, artifacts or
    /// diagnostics.
    pub open spec fn is_bare(self, job_id: Seq<char>, state: CapabilityExitState, finished_at: Binary64) -> bool {
        &&& self.abi_version == CAPABILITY_ABI_VERSION
        &&& self.job_id@ == job_id
        &&& self.state == state
        &&& self.output is None
        &&& self.artifacts@.len() == 0
        &&& self.finished_at == finished_at
    }

    pub fn completed(job_id: &str, result: Json, finished_at: Binary64) -> (r: Self)
        ensures
            r.is_bare(job_id@, CapabilityExitState::Completed, finished_at),
            r.result == Some(result),
            r.diagnostics is None,
    {
        CapabilityResult {
            abi_version: CAPABILITY_ABI_VERSION,
            job_id: owned(job_id),
            state: CapabilityExitState::Completed,
            result: Some(result),
            output: None,
            artifacts: Vec::new(),
            diagnostics: None,
            finished_at,
        }
    }

    pub fn failed(job_id: &str, message: &str, code: Option<&str>, finished_at: Binary64) -> (r: Self)
        ensures
            r.is_bare(job_id@, CapabilityExitState::Failed, finished_at),
            r.result is None,
            r.diagnostics matches Some(d) && d.stderr_lines@.len() == 0 && (d.error_message matches Some(m) && m@ == message@)
                && (match code {
                Some(c) => d.error_code matches Some(dc) && dc@ == c@,
                None => d.error_code is None,
            }),
    {
        let error_code = match code {
            Some(c) => Some(owned(c)),
            None => None,
        };
        CapabilityResult {
            abi_version: CAPABILITY_ABI_VERSION,
            job_id: owned(job_id),
            state: CapabilityExitState::Failed,
            result: None,
            output: None,
            artifacts: Vec::new(),
            diagnostics: Some(
                CapabilityDiagnostics {
                    stderr_lines: Vec::new(),
                    error_code,
                    error_message: Some(owned(message)),
                },
            ),
            finished_at,
        }
    }

    pub fn cancelled(job_id: &str, finished_at: Binary64) -> (r: Self)
        ensures
            r.is_bare(job_id@, CapabilityExitState::Cancelled, finished_at),
            r.result is None,
            r.diagnostics is None,
    {
        CapabilityResult {
            abi_version: CAPABILITY_ABI_VERSION,
            job_id: owned(job_id),
            state: CapabilityExitState::Cancelled,
            result: None,
            output: None,
            artifacts: Vec::new(),
            diagnostics: None,
            finished_at,
        }
    }

    pub fn timed_out(job_id: &str, finished_at: Binary64) -> (r: Self)
        ensures
            r.is_bare(job_id@, CapabilityExitState::TimedOut, finished_at),
            r.result is None,
            r.diagnostics is None,
    {
        CapabilityResult {
            abi_version: CAPABILITY_ABI_VERSION,
            job_id: owned(job_id),
            state: CapabilityExitState::TimedOut,
            result: None,
            output: None,
            artifacts: Vec::new(),
            diagnostics: None,
            finished_at,
        }
    }

    pub fn with_output(self, output: String) -> (r: Self)
        ensures
            r == (CapabilityResult { output: Some(output), ..self }),
    {
        CapabilityResult { output: Some(output), ..self }
    }

    pub fn with_artifact(self, artifact: CapabilityArtifact) -> (r: Self)
        ensures
            r.artifacts@ == self.artifacts@.push(artifact),
            r == (CapabilityResult { artifacts: r.artifacts, ..self }),
    {
        let mut r = self;
        r.artifacts.push(artifact);
        r
    }

    /// Append stderr lines to the diagnostics, creating empty diagnostics
    /// first when there are none.
    pub fn with_stderr(self, lines: Vec<String>) -> (r: Self)
        ensures
            r.diagnostics matches Some(d) && match self.diagnostics {
                Some(old) => d.stderr_lines@ == old.stderr_lines@ + lines@ && d.error_code
                    == old.error_code && d.error_message == old.error_message,
                None => d.stderr_lines@ == lines@ && d.error_code is None && d.error_message is None,
            },
            r == (CapabilityResult { diagnostics: r.diagnostics, ..self }),
    {
        let mut r = self;
        let mut lines = lines;
        let diagnostics = match r.diagnostics {
            Some(d) => {
                let mut d = d;
                d.stderr_lines.append(&mut lines);
                d
            },
            None => CapabilityDiagnostics { stderr_lines: lines, error_code: None, error_message: None },
        };
        r.diagnostics = Some(diagnostics);
        r
    }
}

/// Copies of a list of strings.
pub fn clone_strings(v: &Vec<String>) -> (r: Vec<String>)
    ensures
        r@ == v@,
{
    v.clone()
}

impl CapabilityInputFile {
    pub fn duplicate(&self) -> (r: Self)
        ensures
            r == *self,
    {
        CapabilityInputFile { path: self.path.clone(), sha256: self.sha256.clone(), size: self.size }
    }
}

impl CapabilityGrants {
    pub fn duplicate(&self) -> (r: Self)
        ensures
            r.read_roots@ == self.read_roots@,
            r.write_roots@ == self.write_roots@,
            r.network@ == self.network@,
            r.secrets@ == self.secrets@,
            r.exec_allowed == self.exec_allowed,
            r.execution_epoch == self.execution_epoch,
            r.expires_at == self.expires_at,
    {
        CapabilityGrants {
            read_roots: clone_strings(&self.read_roots),
            write_roots: clone_strings(&self.write_roots),
            network: clone_strings(&self.network),
            secrets: clone_strings(&self.secrets),
            exec_allowed: self.exec_allowed,
            execution_epoch: self.execution_epoch,
            expires_at: self.expires_at,
        }
    }
}

impl CapabilityBoundary {
    pub fn duplicate(&self) -> (r: Self)
        ensures
            r.read_roots@ == self.read_roots@,
            r.write_roots@ == self.write_roots@,
            r.network@ == self.network@,
            r.exec_allowed == self.exec_allowed,
            r.secrets@ == self.secrets@,
            r.destructive == self.destructive,
            r.provenance == self.provenance,
            r.execution_epoch == self.execution_epoch,
            r.expires_at == self.expires_at,
    {
        CapabilityBoundary {
            read_roots: clone_strings(&self.read_roots),
            write_roots: clone_strings(&self.write_roots),
            network: clone_strings(&self.network),
            exec_allowed: self.exec_allowed,
            secrets: clone_strings(&self.secrets),
            destructive: self.destructive,
            provenance: self.provenance.clone(),
            execution_epoch: self.execution_epoch,
            expires_at: self.expires_at,
        }
    }
}

/// Two jobs carry the same contract, field for field.
pub open spec fn same_job_except_call(a: CapabilityJob, b: CapabilityJob) -> bool {
    &&& a.abi_version == b.abi_version
    &&& a.job_id == b.job_id
    &&& a.run_id == b.run_id
    &&& a.session_id == b.session_id
    &&& a.workspace == b.workspace
    &&& a.input_files@ == b.input_files@
    &&& a.grants.read_roots@ == b.grants.read_roots@
    &&& a.grants.write_roots@ == b.grants.write_roots@
    &&& a.grants.network@ == b.grants.network@
    &&& a.grants.secrets@ == b.grants.secrets@
    &&& a.grants.exec_allowed == b.grants.exec_allowed
    &&& a.grants.execution_epoch == b.grants.execution_epoch
    &&& a.grants.expires_at == b.grants.expires_at
    &&& a.boundary.read_roots@ == b.boundary.read_roots@
    &&& a.boundary.write_roots@ == b.boundary.write_roots@
    &&& a.boundary.network@ == b.boundary.network@
    &&& a.boundary.exec_allowed == b.boundary.exec_allowed
    &&& a.boundary.secrets@ == b.boundary.secrets@
    &&& a.boundary.destructive == b.boundary.destructive
    &&& a.boundary.provenance == b.boundary.provenance
    &&& a.boundary.execution_epoch == b.boundary.execution_epoch
    &&& a.boundary.expires_at == b.boundary.expires_at
    &&& a.timeout_secs == b.timeout_secs
    &&& a.artifact_staging_dir == b.artifact_staging_dir
    &&& a.secret_values@ == b.secret_values@
}

impl CapabilityJob {
    /// The same job asking for another capability with other arguments.
    pub fn redirected(&self, capability_id: String, arguments: Json) -> (r: Self)
        ensures
            same_job_except_call(r, *self),
            r.capability_id == capability_id,
            r.arguments == arguments,
    {
        let mut input_files: Vec<CapabilityInputFile> = Vec::new();
        let mut i: usize = 0;
        while i < self.input_files.len()
            invariant
                i <= self.input_files.len(),
                input_files@ == self.input_files@.subrange(0, i as int),
            decreases self.input_files.len() - i,
        {
            input_files.push(self.input_files[i].duplicate());
            i = i + 1;
            assert(input_files@ =~= self.input_files@.subrange(0, i as int));
        }
        assert(self.input_files@.subrange(0, i as int) =~= self.input_files@);
        CapabilityJob {
            abi_version: self.abi_version,
            capability_id,
            job_id: self.job_id.clone(),
            run_id: self.run_id.clone(),
            session_id: self.session_id.clone(),
            workspace: self.workspace.clone(),
            input_files,
            arguments,
            grants: self.grants.duplicate(),
            boundary: self.boundary.duplicate(),
            timeout_secs: self.timeout_secs,
            artifact_staging_dir: self.artifact_staging_dir.clone(),
            secret_values: self.secret_values.duplicate(),
        }
    }
}

} // verus!
