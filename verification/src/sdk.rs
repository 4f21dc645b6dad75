//! Public extension contracts: the wire types and trait surfaces through
//! which extensions consume the Runtime.

use vstd::prelude::*;

use crate::binary64::Binary64;
use crate::json::Json;
use crate::text::owned;

verus! {

/// The Capability ABI wire version; equal to the Runtime's version.
pub const CAPABILITY_ABI_VERSION: u32 = 2;

/// Canonical SDK errors.
#[derive(Debug)]
pub enum Error {
    Unavailable(String),
    PermissionDenied(String),
    GrantExpired(String),
    GrantNotActive(String),
    InvalidGrantWindow(String),
    GrantInvalid(String),
    /// A JSON encoding or decoding failure, with the decoder's message.
    Serde(String),
}

/// Terminal state of a capability job (wire form).
#[derive(Debug, Clone, Copy, PartialEq, Eq, Structural)]
pub enum CapabilityExitState {
    Completed,
    Failed,
    Cancelled,
    TimedOut,
}

#[derive(Debug)]
pub struct CapabilityInputFile {
    pub path: String,
    pub sha256: Option<String>,
    pub size: Option<u64>,
}

#[derive(Debug)]
pub struct CapabilityGrants {
    pub read_roots: Vec<String>,
    pub write_roots: Vec<String>,
    pub network: Vec<String>,
    pub secrets: Vec<String>,
    pub exec_allowed: bool,
    pub execution_epoch: Option<Binary64>,
    pub expires_at: Option<Binary64>,
}

#[derive(Debug)]
pub struct CapabilityBoundary {
    pub read_roots: Vec<String>,
    pub write_roots: Vec<String>,
    pub network: Vec<String>,
    pub exec_allowed: bool,
    pub secrets: Vec<String>,
    pub destructive: bool,
    pub provenance: String,
    pub execution_epoch: Option<Binary64>,
    pub expires_at: Option<Binary64>,
}

/// The temporal authorization binding a capability invocation to a run.
#[derive(Debug)]
pub struct ExecutionGrant {
    pub run_id: String,
    pub execution_epoch: Binary64,
    pub capability_id: String,
    pub permission_scope: Vec<String>,
    pub expires_at: Binary64,
}

#[derive(Debug)]
pub struct CapabilityProgress {
    pub job_id: String,
    pub fraction: Binary64,
    pub stage: Option<String>,
    pub message: Option<String>,
}

#[derive(Debug)]
pub struct CapabilityArtifact {
    pub staging_path: String,
    pub relative_path: String,
    pub kind: Option<String>,
    pub sha256: Option<String>,
    pub size: Option<u64>,
    pub incomplete: bool,
}

#[derive(Debug)]
pub struct CapabilityDiagnostics {
    pub stderr_lines: Vec<String>,
    pub error_code: Option<String>,
    pub error_message: Option<String>,
}

#[derive(Debug)]
pub struct CapabilityResult {
    pub abi_version: u32,
    pub job_id: String,
    pub state: CapabilityExitState,
    pub result: Option<Json>,
    pub output: Option<String>,
    pub artifacts: Vec<CapabilityArtifact>,
    pub diagnostics: Option<CapabilityDiagnostics>,
    pub finished_at: Binary64,
}

#[derive(Debug)]
pub struct CapabilityJob {
    pub abi_version: u32,
    pub capability_id: String,
    pub job_id: String,
    pub run_id: Option<String>,
    pub session_id: Option<String>,
    pub workspace: Option<String>,
    pub input_files: Vec<CapabilityInputFile>,
    pub arguments: Json,
    pub grants: CapabilityGrants,
    pub boundary: CapabilityBoundary,
    pub timeout_secs: u64,
    pub artifact_staging_dir: Option<String>,
}

/// A request submitted by an extension to invoke a capability.
#[derive(Debug)]
pub struct CapabilityRequest {
    pub run_id: String,
    pub capability_id: String,
    pub arguments: Json,
    pub permissions: Vec<String>,
    pub deadline: Option<String>,
}

/// Stable error codes for execution grant validation (wire form).
#[derive(Debug, PartialEq, Eq)]
pub enum GrantValidationError {
    GrantNotActive,
    GrantExpired,
    InvalidGrantWindow,
    GrantInvalid(String),
}

impl GrantValidationError {
    pub open spec fn code_of(&self) -> Seq<char> {
        match self {
            GrantValidationError::GrantNotActive => "grant_not_active"@,
            GrantValidationError::GrantExpired => "grant_expired"@,
            GrantValidationError::InvalidGrantWindow => "invalid_grant_window"@,
            GrantValidationError::GrantInvalid(_) => "grant_invalid"@,
        }
    }

    pub fn code(&self) -> (c: &'static str)
        ensures
            c@ == self.code_of(),
    {
        match self {
            GrantValidationError::GrantNotActive => "grant_not_active",
            GrantValidationError::GrantExpired => "grant_expired",
            GrantValidationError::InvalidGrantWindow => "invalid_grant_window",
            GrantValidationError::GrantInvalid(_) => "grant_invalid",
        }
    }
}

/// The surface through which extensions request capability execution.
pub trait CapabilityApi {
    fn request(&self, req: CapabilityRequest) -> Result<CapabilityResult, Error>;

    fn cancel(&self, run_id: &str, tool_call_id: &str) -> Result<(), Error>;
}

/// A staged artifact submitted by a worker for formalization.
#[derive(Debug)]
pub struct ArtifactSubmission {
    pub run_id: String,
    pub staging_path: String,
    pub relative_path: String,
    pub kind: Option<String>,
    pub sha256: Option<String>,
    pub size: Option<u64>,
    pub incomplete: bool,
}

/// A formally registered artifact record.
#[derive(Debug)]
pub struct ArtifactRecord {
    pub artifact_id: String,
    pub run_id: String,
    pub relative_path: String,
    pub kind: String,
    pub sha256: String,
    pub size: u64,
    pub registered_at: String,
}

pub trait ArtifactApi {
    fn submit(&self, submission: ArtifactSubmission) -> Result<ArtifactRecord, Error>;

    fn list_for_run(&self, run_id: &str) -> Vec<ArtifactRecord>;
}

#[derive(Debug)]
pub struct ConnectorDescriptor {
    pub name: String,
    pub display_name: String,
    pub detail_ui: String,
    pub managed: bool,
}

pub trait ConnectorApi {
    fn register(&self, descriptor: ConnectorDescriptor) -> Result<(), Error>;

    fn list(&self) -> Vec<ConnectorDescriptor>;

    fn disconnect(&self, name: &str) -> Result<(), Error>;
}

/// A Runtime event delivered to extensions.
#[derive(Debug)]
pub struct RuntimeEvent {
    pub event_type: String,
    pub run_id: String,
    pub payload: Json,
    pub timestamp: String,
}

pub trait EventApi {
    fn subscribe(&self, run_id: &str) -> Result<(), Error>;

    fn poll(&self) -> Vec<RuntimeEvent>;
}

/// A capability declared by a worker manifest entry.
#[derive(Debug)]
pub struct ManifestCapability {
    pub capability_id: String,
    pub permissions: Vec<String>,
    pub timeout_seconds: Option<u64>,
}

/// A worker's declared capabilities and permission scope.
#[derive(Debug)]
pub struct WorkerManifest {
    pub worker_id: String,
    pub capabilities: Vec<ManifestCapability>,
}

pub trait WorkerApi {
    fn discover(&self) -> Vec<WorkerManifest>;

    fn execute(&self, manifest: &WorkerManifest, input: Json) -> Result<Json, Error>;

    fn cancel(&self, job_id: &str) -> Result<(), Error>;
}

} // verus!
