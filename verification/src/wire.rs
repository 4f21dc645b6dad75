//! Explicit, lossless conversions from Runtime models to the wire contracts.

use vstd::prelude::*;

use crate::capability::abi::{
    CapabilityArtifact, CapabilityBoundary, CapabilityDiagnostics, CapabilityExitState,
    CapabilityGrants, CapabilityInputFile, CapabilityJob, CapabilityProgress, CapabilityResult,
    GrantValidationError,
};
use crate::sdk;

verus! {

impl From<CapabilityExitState> for sdk::CapabilityExitState {
    fn from(state: CapabilityExitState) -> (r: Self) {
        match state {
            CapabilityExitState::Completed => sdk::CapabilityExitState::Completed,
            CapabilityExitState::Failed => sdk::CapabilityExitState::Failed,
            CapabilityExitState::Cancelled => sdk::CapabilityExitState::Cancelled,
            CapabilityExitState::TimedOut => sdk::CapabilityExitState::TimedOut,
        }
    }
}

impl vstd::std_specs::convert::FromSpecImpl<CapabilityExitState> for sdk::CapabilityExitState {
    open spec fn obeys_from_spec() -> bool {
        true
    }

    open spec fn from_spec(state: CapabilityExitState) -> Self {
        match state {
            CapabilityExitState::Completed => sdk::CapabilityExitState::Completed,
            CapabilityExitState::Failed => sdk::CapabilityExitState::Failed,
            CapabilityExitState::Cancelled => sdk::CapabilityExitState::Cancelled,
            CapabilityExitState::TimedOut => sdk::CapabilityExitState::TimedOut,
        }
    }
}

impl From<CapabilityInputFile> for sdk::CapabilityInputFile {
    fn from(file: CapabilityInputFile) -> (r: Self) {
        sdk::CapabilityInputFile { path: file.path, sha256: file.sha256, size: file.size }
    }
}

impl vstd::std_specs::convert::FromSpecImpl<CapabilityInputFile> for sdk::CapabilityInputFile {
    open spec fn obeys_from_spec() -> bool {
        true
    }

    open spec fn from_spec(file: CapabilityInputFile) -> Self {
        sdk::CapabilityInputFile { path: file.path, sha256: file.sha256, size: file.size }
    }
}

impl From<CapabilityGrants> for sdk::CapabilityGrants {
    fn from(grants: CapabilityGrants) -> (r: Self) {
        sdk::CapabilityGrants {
            read_roots: grants.read_roots,
            write_roots: grants.write_roots,
            network: grants.network,
            secrets: grants.secrets,
            exec_allowed: grants.exec_allowed,
            execution_epoch: grants.execution_epoch,
            expires_at: grants.expires_at,
        }
    }
}

impl vstd::std_specs::convert::FromSpecImpl<CapabilityGrants> for sdk::CapabilityGrants {
    open spec fn obeys_from_spec() -> bool {
        true
    }

    open spec fn from_spec(grants: CapabilityGrants) -> Self {
        sdk::CapabilityGrants {
            read_roots: grants.read_roots,
            write_roots: grants.write_roots,
            network: grants.network,
            secrets: grants.secrets,
            exec_allowed: grants.exec_allowed,
            execution_epoch: grants.execution_epoch,
            expires_at: grants.expires_at,
        }
    }
}

impl From<CapabilityBoundary> for sdk::CapabilityBoundary {
    fn from(boundary: CapabilityBoundary) -> (r: Self) {
        sdk::CapabilityBoundary {
            read_roots: boundary.read_roots,
            write_roots: boundary.write_roots,
            network: boundary.network,
            exec_allowed: boundary.exec_allowed,
            secrets: boundary.secrets,
            destructive: boundary.destructive,
            provenance: boundary.provenance,
            execution_epoch: boundary.execution_epoch,
            expires_at: boundary.expires_at,
        }
    }
}

impl vstd::std_specs::convert::FromSpecImpl<CapabilityBoundary> for sdk::CapabilityBoundary {
    open spec fn obeys_from_spec() -> bool {
        true
    }

    open spec fn from_spec(boundary: CapabilityBoundary) -> Self {
        sdk::CapabilityBoundary {
            read_roots: boundary.read_roots,
            write_roots: boundary.write_roots,
            network: boundary.network,
            exec_allowed: boundary.exec_allowed,
            secrets: boundary.secrets,
            destructive: boundary.destructive,
            provenance: boundary.provenance,
            execution_epoch: boundary.execution_epoch,
            expires_at: boundary.expires_at,
        }
    }
}

impl From<CapabilityProgress> for sdk::CapabilityProgress {
    fn from(progress: CapabilityProgress) -> (r: Self) {
        sdk::CapabilityProgress {
            job_id: progress.job_id,
            fraction: progress.fraction,
            stage: progress.stage,
            message: progress.message,
        }
    }
}

impl vstd::std_specs::convert::FromSpecImpl<CapabilityProgress> for sdk::CapabilityProgress {
    open spec fn obeys_from_spec() -> bool {
        true
    }

    open spec fn from_spec(progress: CapabilityProgress) -> Self {
        sdk::CapabilityProgress {
            job_id: progress.job_id,
            fraction: progress.fraction,
            stage: progress.stage,
            message: progress.message,
        }
    }
}

impl From<CapabilityArtifact> for sdk::CapabilityArtifact {
    fn from(artifact: CapabilityArtifact) -> (r: Self) {
        sdk::CapabilityArtifact {
            staging_path: artifact.staging_path,
            relative_path: artifact.relative_path,
            kind: artifact.kind,
            sha256: artifact.sha256,
            size: artifact.size,
            incomplete: artifact.incomplete,
        }
    }
}

impl vstd::std_specs::convert::FromSpecImpl<CapabilityArtifact> for sdk::CapabilityArtifact {
    open spec fn obeys_from_spec() -> bool {
        true
    }

    open spec fn from_spec(artifact: CapabilityArtifact) -> Self {
        sdk::CapabilityArtifact {
            staging_path: artifact.staging_path,
            relative_path: artifact.relative_path,
            kind: artifact.kind,
            sha256: artifact.sha256,
            size: artifact.size,
            incomplete: artifact.incomplete,
        }
    }
}

impl From<CapabilityDiagnostics> for sdk::CapabilityDiagnostics {
    fn from(diagnostics: CapabilityDiagnostics) -> (r: Self) {
        sdk::CapabilityDiagnostics {
            stderr_lines: diagnostics.stderr_lines,
            error_code: diagnostics.error_code,
            error_message: diagnostics.error_message,
        }
    }
}

impl vstd::std_specs::convert::FromSpecImpl<CapabilityDiagnostics> for sdk::CapabilityDiagnostics {
    open spec fn obeys_from_spec() -> bool {
        true
    }

    open spec fn from_spec(diagnostics: CapabilityDiagnostics) -> Self {
        sdk::CapabilityDiagnostics {
            stderr_lines: diagnostics.stderr_lines,
            error_code: diagnostics.error_code,
            error_message: diagnostics.error_message,
        }
    }
}

impl From<GrantValidationError> for sdk::GrantValidationError {
    fn from(error: GrantValidationError) -> (r: Self) {
        match error {
            GrantValidationError::GrantNotActive => sdk::GrantValidationError::GrantNotActive,
            GrantValidationError::GrantExpired => sdk::GrantValidationError::GrantExpired,
            GrantValidationError::InvalidGrantWindow => sdk::GrantValidationError::InvalidGrantWindow,
            GrantValidationError::GrantInvalid(msg) => sdk::GrantValidationError::GrantInvalid(msg),
        }
    }
}

impl vstd::std_specs::convert::FromSpecImpl<GrantValidationError> for sdk::GrantValidationError {
    open spec fn obeys_from_spec() -> bool {
        true
    }

    open spec fn from_spec(error: GrantValidationError) -> Self {
        match error {
            GrantValidationError::GrantNotActive => sdk::GrantValidationError::GrantNotActive,
            GrantValidationError::GrantExpired => sdk::GrantValidationError::GrantExpired,
            GrantValidationError::InvalidGrantWindow => sdk::GrantValidationError::InvalidGrantWindow,
            GrantValidationError::GrantInvalid(msg) => sdk::GrantValidationError::GrantInvalid(msg),
        }
    }
}

/// Convert each artifact, in order.
fn artifacts_to_wire(artifacts: Vec<CapabilityArtifact>) -> (w: Vec<sdk::CapabilityArtifact>)
    ensures
        w@.len() == artifacts@.len(),
        forall|i: int|
            0 <= i < w@.len() ==> #[trigger] w@[i] == <sdk::CapabilityArtifact as vstd::std_specs::convert::FromSpec<CapabilityArtifact>>::from_spec(artifacts@[i]),
{
    let ghost original = artifacts@;
    let mut src = artifacts;
    let mut out: Vec<sdk::CapabilityArtifact> = Vec::new();
    while src.len() > 0
        invariant
            out@.len() + src@.len() == original.len(),
            src@ == original.subrange(out@.len() as int, original.len() as int),
            forall|i: int|
                0 <= i < out@.len() ==> #[trigger] out@[i] == <sdk::CapabilityArtifact as vstd::std_specs::convert::FromSpec<CapabilityArtifact>>::from_spec(original[i]),
        decreases src.len(),
    {
        let a = src.remove(0);
        out.push(sdk::CapabilityArtifact::from(a));
    }
    out
}

/// Convert each input file, in order.
fn input_files_to_wire(files: Vec<CapabilityInputFile>) -> (w: Vec<sdk::CapabilityInputFile>)
    ensures
        w@.len() == files@.len(),
        forall|i: int|
            0 <= i < w@.len() ==> #[trigger] w@[i] == <sdk::CapabilityInputFile as vstd::std_specs::convert::FromSpec<CapabilityInputFile>>::from_spec(files@[i]),
{
    let ghost original = files@;
    let mut src = files;
    let mut out: Vec<sdk::CapabilityInputFile> = Vec::new();
    while src.len() > 0
        invariant
            out@.len() + src@.len() == original.len(),
            src@ == original.subrange(out@.len() as int, original.len() as int),
            forall|i: int|
                0 <= i < out@.len() ==> #[trigger] out@[i] == <sdk::CapabilityInputFile as vstd::std_specs::convert::FromSpec<CapabilityInputFile>>::from_spec(original[i]),
        decreases src.len(),
    {
        let f = src.remove(0);
        out.push(sdk::CapabilityInputFile::from(f));
    }
    out
}

/// Results carry artifact vectors whose elements change type, so the
/// conversion is specified field by field (and element by element) rather
/// than as one spec-level value.
impl From<CapabilityResult> for sdk::CapabilityResult {
    fn from(result: CapabilityResult) -> (w: Self)
        ensures
            w.abi_version == result.abi_version,
            w.job_id == result.job_id,
            w.state == <sdk::CapabilityExitState as vstd::std_specs::convert::FromSpec<CapabilityExitState>>::from_spec(result.state),
            w.result == result.result,
            w.output == result.output,
            w.artifacts@.len() == result.artifacts@.len(),
            forall|i: int|
                0 <= i < w.artifacts@.len() ==> #[trigger] w.artifacts@[i] == <sdk::CapabilityArtifact as vstd::std_specs::convert::FromSpec<CapabilityArtifact>>::from_spec(result.artifacts@[i]),
            w.diagnostics == match result.diagnostics {
                Some(d) => Some(<sdk::CapabilityDiagnostics as vstd::std_specs::convert::FromSpec<CapabilityDiagnostics>>::from_spec(d)),
                None => None,
            },
            w.finished_at == result.finished_at,
    {
        let diagnostics = match result.diagnostics {
            Some(d) => Some(sdk::CapabilityDiagnostics::from(d)),
            None => None,
        };
        sdk::CapabilityResult {
            abi_version: result.abi_version,
            job_id: result.job_id,
            state: sdk::CapabilityExitState::from(result.state),
            result: result.result,
            output: result.output,
            artifacts: artifacts_to_wire(result.artifacts),
            diagnostics,
            finished_at: result.finished_at,
        }
    }
}

impl vstd::std_specs::convert::FromSpecImpl<CapabilityResult> for sdk::CapabilityResult {
    /// No single spec value describes the converted vector; the conversion's
    /// own `ensures` states it field by field.
    open spec fn obeys_from_spec() -> bool {
        false
    }

    open spec fn from_spec(result: CapabilityResult) -> Self {
        arbitrary()
    }
}

/// Jobs carry input-file vectors whose elements change type; the conversion
/// is specified field by field. Secret values never reach the wire form.
impl From<CapabilityJob> for sdk::CapabilityJob {
    fn from(job: CapabilityJob) -> (w: Self)
        ensures
            w.abi_version == job.abi_version,
            w.capability_id == job.capability_id,
            w.job_id == job.job_id,
            w.run_id == job.run_id,
            w.session_id == job.session_id,
            w.workspace == job.workspace,
            w.input_files@.len() == job.input_files@.len(),
            forall|i: int|
                0 <= i < w.input_files@.len() ==> #[trigger] w.input_files@[i] == <sdk::CapabilityInputFile as vstd::std_specs::convert::FromSpec<CapabilityInputFile>>::from_spec(job.input_files@[i]),
            w.arguments == job.arguments,
            w.grants == <sdk::CapabilityGrants as vstd::std_specs::convert::FromSpec<CapabilityGrants>>::from_spec(job.grants),
            w.boundary == <sdk::CapabilityBoundary as vstd::std_specs::convert::FromSpec<CapabilityBoundary>>::from_spec(job.boundary),
            w.timeout_secs == job.timeout_secs,
            w.artifact_staging_dir == job.artifact_staging_dir,
    {
        sdk::CapabilityJob {
            abi_version: job.abi_version,
            capability_id: job.capability_id,
            job_id: job.job_id,
            run_id: job.run_id,
            session_id: job.session_id,
            workspace: job.workspace,
            input_files: input_files_to_wire(job.input_files),
            arguments: job.arguments,
            grants: sdk::CapabilityGrants::from(job.grants),
            boundary: sdk::CapabilityBoundary::from(job.boundary),
            timeout_secs: job.timeout_secs,
            artifact_staging_dir: job.artifact_staging_dir,
        }
    }
}

impl vstd::std_specs::convert::FromSpecImpl<CapabilityJob> for sdk::CapabilityJob {
    /// No single spec value describes the converted vector; the conversion's
    /// own `ensures` states it field by field.
    open spec fn obeys_from_spec() -> bool {
        false
    }

    open spec fn from_spec(job: CapabilityJob) -> Self {
        arbitrary()
    }
}

} // verus!
