use delta_core::binary64::Binary64;
use delta_core::capability::abi::{
    CapabilityArtifact, CapabilityBoundary, CapabilityExitState, CapabilityGrants,
    CapabilityInputFile, CapabilityJob, CapabilityResult, GrantValidationError,
    CAPABILITY_ABI_VERSION,
};
use delta_core::json::Json;
use std::time::{SystemTime, UNIX_EPOCH};

fn t(value: f64) -> Binary64 {
    Binary64 { bits: value.to_bits() }
}

fn unix_secs() -> f64 {
    SystemTime::now()
        .duration_since(UNIX_EPOCH)
        .map(|d| d.as_secs_f64())
        .unwrap_or(0.0)
}

fn now() -> Binary64 {
    t(unix_secs())
}

fn finished() -> Binary64 {
    now()
}

fn object(members: Vec<(&str, Json)>) -> Json {
    Json::Object(
        members
            .into_iter()
            .map(|(k, v)| (k.to_string(), v))
            .collect(),
    )
}

#[test]
fn abi_version_constant() {
    assert_eq!(CapabilityJob::version(), CAPABILITY_ABI_VERSION);
    assert_eq!(CAPABILITY_ABI_VERSION, 2);
}

#[test]
fn job_auto_versions_and_ids() {
    let job = CapabilityJob::new(
        "shell.exec",
        "job-1",
        object(vec![("cmd", Json::String("ls".to_string()))]),
    );
    assert_eq!(job.abi_version, CAPABILITY_ABI_VERSION);
    assert_eq!(job.capability_id, "shell.exec");
    assert_eq!(job.job_id, "job-1");
    assert!(job.workspace.is_none());
    assert!(job.input_files.is_empty());
}

#[test]
fn builder_sets_bounds() {
    let job = CapabilityJob::new("file.read", "job-2", object(vec![]))
        .workspace("/ws")
        .running_f_in(CapabilityInputFile {
            path: "/ws/a.txt".to_string(),
            sha256: Some("abc".to_string()),
            size: Some(3),
        })
        .grants(CapabilityGrants {
            read_roots: vec!["/ws".to_string()],
            write_roots: Vec::new(),
            network: Vec::new(),
            secrets: Vec::new(),
            exec_allowed: false,
            ..Default::default()
        })
        .with_timeout(30);
    assert_eq!(job.workspace.as_deref(), Some("/ws"));
    assert_eq!(job.input_files.len(), 1);
    assert_eq!(job.grants.read_roots, vec!["/ws"]);
    assert_eq!(job.timeout_secs, 30);
    assert!(!job.grants.exec_allowed);
}

#[test]
fn read_only_grants_have_no_write_roots() {
    let g = CapabilityGrants::read_only();
    assert!(g.write_roots.is_empty());
    assert!(!g.exec_allowed);
}

#[test]
fn result_terminates_with_state() {
    let c = CapabilityResult::completed("j", object(vec![("ok", Json::Bool(true))]), finished());
    assert_eq!(c.state, CapabilityExitState::Completed);
    assert_eq!(
        c.result.as_ref().unwrap().get("ok").and_then(Json::as_bool),
        Some(true)
    );

    let f = CapabilityResult::failed("j", "boom", Some("E_RUN"), finished());
    assert_eq!(f.state, CapabilityExitState::Failed);
    assert_eq!(
        f.diagnostics.as_ref().unwrap().error_code.as_deref(),
        Some("E_RUN")
    );

    let t = CapabilityResult::timed_out("j", finished());
    assert_eq!(t.state, CapabilityExitState::TimedOut);
}

#[test]
fn artifacts_stream_into_result() {
    let r = CapabilityResult::completed("j", Json::String("ok".to_string()), finished())
        .with_artifact(CapabilityArtifact {
            staging_path: "/ws/.delta/staging/run/job/out.csv".to_string(),
            relative_path: "out.csv".to_string(),
            kind: Some("csv".to_string()),
            sha256: Some("d41d8".to_string()),
            size: Some(5),
            incomplete: false,
        })
        .with_stderr(vec!["warn: deprecation".to_string()]);
    assert_eq!(r.artifacts.len(), 1);
    assert_eq!(r.artifacts[0].kind.as_deref(), Some("csv"));
    let diag = r.diagnostics.unwrap();
    assert_eq!(diag.stderr_lines, vec!["warn: deprecation"]);
}

#[test]
fn boundary_from_read_only_grants_is_read_only_floor() {
    let mut grants = CapabilityGrants::read_only();
    grants.read_roots.push("/ws".to_string());
    let boundary = CapabilityBoundary::from_grants(&grants, "runtime.auto_low_risk".to_string());
    assert!(boundary.is_read_only());
    assert!(boundary.write_roots.is_empty());
    assert!(!boundary.exec_allowed);
    assert!(boundary.network.is_empty());
    assert!(boundary.secrets.is_empty());
    assert_eq!(boundary.provenance, "runtime.auto_low_risk");
}

#[test]
fn boundary_from_write_grants_is_not_read_only() {
    let grants = CapabilityGrants {
        write_roots: vec!["/ws".to_string()],
        read_roots: vec!["/ws".to_string()],
        ..Default::default()
    };
    let boundary = CapabilityBoundary::from_grants(&grants, "policy".to_string());
    assert!(!boundary.is_read_only());
    assert_eq!(boundary.write_roots, vec!["/ws"]);
}

#[test]
fn boundary_allows_workspace_less_capabilities() {
    let boundary = CapabilityBoundary::default();
    assert!(boundary.validate().is_ok());
}

#[test]
fn boundary_validates_with_or_without_workspace_roots() {
    let grants = CapabilityGrants::read_only();
    let boundary = CapabilityBoundary::from_grants(&grants, "capability.registration".to_string());
    assert!(boundary.validate().is_ok());

    let mut grants = CapabilityGrants::read_only();
    grants.read_roots.push("/ws".to_string());
    let boundary = CapabilityBoundary::from_grants(&grants, "capability.registration".to_string());
    assert!(boundary.validate().is_ok());
}

#[test]
fn boundary_propagates_epoch_and_expiry_from_grants() {
    let grants = CapabilityGrants {
        read_roots: vec!["/ws".to_string()],
        execution_epoch: Some(t(1000.0)),
        expires_at: Some(t(2000.0)),
        ..Default::default()
    };
    let boundary = CapabilityBoundary::from_grants(&grants, "test".to_string());
    assert_eq!(boundary.execution_epoch, Some(t(1000.0)));
    assert_eq!(boundary.expires_at, Some(t(2000.0)));
}

#[test]
fn boundary_validate_rejects_epoch_after_expiry() {
    let boundary = CapabilityBoundary {
        read_roots: vec!["/ws".to_string()],
        execution_epoch: Some(t(2000.0)),
        expires_at: Some(t(1000.0)),
        provenance: "test".to_string(),
        ..Default::default()
    };
    assert!(boundary.validate().is_err());
}

#[test]
fn boundary_validate_accepts_epoch_before_expiry() {
    let boundary = CapabilityBoundary {
        read_roots: vec!["/ws".to_string()],
        execution_epoch: Some(t(1000.0)),
        expires_at: Some(t(2000.0)),
        provenance: "test".to_string(),
        ..Default::default()
    };
    assert!(boundary.validate().is_ok());
}

#[test]
fn boundary_is_expired_when_past_expiry() {
    let boundary = CapabilityBoundary {
        read_roots: vec!["/ws".to_string()],
        expires_at: Some(t(0.0)),
        provenance: "test".to_string(),
        ..Default::default()
    };
    assert!(boundary.is_expired_at(now()));
}

#[test]
fn boundary_is_not_expired_when_no_expiry() {
    let boundary = CapabilityBoundary {
        read_roots: vec!["/ws".to_string()],
        provenance: "test".to_string(),
        ..Default::default()
    };
    assert!(!boundary.is_expired_at(now()));
}

#[test]
fn boundary_is_pending_before_epoch() {
    let boundary = CapabilityBoundary {
        read_roots: vec!["/ws".to_string()],
        execution_epoch: Some(t(f64::MAX)),
        provenance: "test".to_string(),
        ..Default::default()
    };
    assert!(boundary.is_pending_at(now()));
}

#[test]
fn boundary_is_not_pending_without_epoch() {
    let boundary = CapabilityBoundary {
        read_roots: vec!["/ws".to_string()],
        provenance: "test".to_string(),
        ..Default::default()
    };
    assert!(!boundary.is_pending_at(now()));
}

#[test]
fn grant_validation_accepts_valid_grant() {
    let now = unix_secs();
    let boundary = CapabilityBoundary {
        read_roots: vec!["/ws".to_string()],
        execution_epoch: Some(t(now - 100.0)),
        expires_at: Some(t(now + 100.0)),
        provenance: "test".to_string(),
        ..Default::default()
    };
    assert!(boundary.validate_execution_grant_at(t(now)).is_ok());
}

#[test]
fn grant_validation_rejects_future_epoch() {
    let now = unix_secs();
    let boundary = CapabilityBoundary {
        read_roots: vec!["/ws".to_string()],
        execution_epoch: Some(t(now + 3600.0)),
        expires_at: Some(t(now + 7200.0)),
        provenance: "test".to_string(),
        ..Default::default()
    };
    assert_eq!(
        boundary.validate_execution_grant_at(t(now)),
        Err(GrantValidationError::GrantNotActive)
    );
}

#[test]
fn grant_validation_rejects_expired() {
    let now = unix_secs();
    let boundary = CapabilityBoundary {
        read_roots: vec!["/ws".to_string()],
        execution_epoch: Some(t(now - 200.0)),
        expires_at: Some(t(now - 100.0)),
        provenance: "test".to_string(),
        ..Default::default()
    };
    assert_eq!(
        boundary.validate_execution_grant_at(t(now)),
        Err(GrantValidationError::GrantExpired)
    );
}

#[test]
fn grant_validation_rejects_boundary_timestamp() {
    let boundary = CapabilityBoundary {
        read_roots: vec!["/ws".to_string()],
        expires_at: Some(t(0.0)),
        provenance: "test".to_string(),
        ..Default::default()
    };
    assert_eq!(
        boundary.validate_execution_grant_at(now()),
        Err(GrantValidationError::GrantExpired)
    );
}

#[test]
fn grant_validation_rejects_epoch_after_expiry() {
    let now = unix_secs();
    let boundary = CapabilityBoundary {
        read_roots: vec!["/ws".to_string()],
        execution_epoch: Some(t(now + 200.0)),
        expires_at: Some(t(now + 100.0)),
        provenance: "test".to_string(),
        ..Default::default()
    };
    assert_eq!(
        boundary.validate_execution_grant_at(t(now)),
        Err(GrantValidationError::InvalidGrantWindow)
    );
}

#[test]
fn grant_validation_accepts_no_epoch() {
    let now = unix_secs();
    let boundary = CapabilityBoundary {
        read_roots: vec!["/ws".to_string()],
        expires_at: Some(t(now + 3600.0)),
        provenance: "test".to_string(),
        ..Default::default()
    };
    assert!(boundary.validate_execution_grant_at(t(now)).is_ok());
}

#[test]
fn grant_validation_accepts_no_expiry() {
    let now = unix_secs();
    let boundary = CapabilityBoundary {
        read_roots: vec!["/ws".to_string()],
        execution_epoch: Some(t(now - 100.0)),
        provenance: "test".to_string(),
        ..Default::default()
    };
    assert!(boundary.validate_execution_grant_at(t(now)).is_ok());
}

#[test]
fn grant_validation_rejects_nan_epoch() {
    let boundary = CapabilityBoundary {
        read_roots: vec!["/ws".to_string()],
        execution_epoch: Some(t(f64::NAN)),
        provenance: "test".to_string(),
        ..Default::default()
    };
    let result = boundary.validate_execution_grant_at(now());
    assert!(matches!(result, Err(GrantValidationError::GrantInvalid(_))));
}

#[test]
fn grant_validation_error_codes_are_stable() {
    assert_eq!(
        GrantValidationError::GrantNotActive.code(),
        "grant_not_active"
    );
    assert_eq!(GrantValidationError::GrantExpired.code(), "grant_expired");
    assert_eq!(
        GrantValidationError::InvalidGrantWindow.code(),
        "invalid_grant_window"
    );
    assert_eq!(
        GrantValidationError::GrantInvalid("test".to_string()).code(),
        "grant_invalid"
    );
}
