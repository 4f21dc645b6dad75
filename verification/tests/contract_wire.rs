use delta_core::binary64::Binary64;
use delta_core::capability::abi::{
    CapabilityArtifact, CapabilityBoundary, CapabilityExitState, CapabilityGrants, CapabilityJob,
    CapabilityResult, GrantValidationError, CAPABILITY_ABI_VERSION,
};
use delta_core::json::Json;
use delta_core::sdk as wire;

fn t(value: f64) -> Binary64 {
    Binary64 { bits: value.to_bits() }
}

fn ok_object() -> Json {
    Json::Object(vec![("ok".to_string(), Json::Bool(true))])
}

#[test]
fn abi_version_matches_across_crates() {
    assert_eq!(CAPABILITY_ABI_VERSION, wire::CAPABILITY_ABI_VERSION);
    assert_eq!(CAPABILITY_ABI_VERSION, 2);
}

#[test]
fn runtime_exit_state_converts_to_wire() {
    assert_eq!(
        wire::CapabilityExitState::from(CapabilityExitState::Completed),
        wire::CapabilityExitState::Completed
    );
    assert_eq!(
        wire::CapabilityExitState::from(CapabilityExitState::Failed),
        wire::CapabilityExitState::Failed
    );
    assert_eq!(
        wire::CapabilityExitState::from(CapabilityExitState::Cancelled),
        wire::CapabilityExitState::Cancelled
    );
    assert_eq!(
        wire::CapabilityExitState::from(CapabilityExitState::TimedOut),
        wire::CapabilityExitState::TimedOut
    );
}

#[test]
fn runtime_result_converts_to_wire_losslessly() {
    let runtime_result = CapabilityResult::completed("job-conv", ok_object(), t(1.0))
        .with_artifact(CapabilityArtifact {
            staging_path: "/staging/out.csv".to_string(),
            relative_path: "out.csv".to_string(),
            kind: Some("csv".to_string()),
            sha256: None,
            size: None,
            incomplete: false,
        })
        .with_stderr(vec!["warn: test".to_string()]);

    let wire_result: wire::CapabilityResult = runtime_result.into();
    assert_eq!(wire_result.abi_version, CAPABILITY_ABI_VERSION);
    assert_eq!(wire_result.job_id, "job-conv");
    assert_eq!(wire_result.state, wire::CapabilityExitState::Completed);
    assert!(matches!(
        wire_result.result,
        Some(Json::Object(ref members)) if members.len() == 1 && members[0].0 == "ok" && matches!(members[0].1, Json::Bool(true))
    ));
    assert_eq!(wire_result.artifacts.len(), 1);
    assert_eq!(wire_result.artifacts[0].kind.as_deref(), Some("csv"));
    assert_eq!(
        wire_result.diagnostics.as_ref().unwrap().stderr_lines,
        vec!["warn: test"]
    );
}

#[test]
fn runtime_job_converts_to_wire_losslessly() {
    let mut runtime_job = CapabilityJob::new(
        "file.read",
        "job-conv-2",
        Json::Object(vec![("path".to_string(), Json::String("a.txt".to_string()))]),
    )
    .workspace("/ws")
    .grants(CapabilityGrants {
        read_roots: vec!["/ws".to_string()],
        execution_epoch: Some(t(1000.0)),
        expires_at: Some(t(2000.0)),
        ..Default::default()
    })
    .with_timeout(30);
    runtime_job.run_id = Some("run-conv".to_string());
    runtime_job.boundary = CapabilityBoundary::from_grants(&runtime_job.grants, "test".to_string());

    let wire_job: wire::CapabilityJob = runtime_job.into();
    assert_eq!(wire_job.abi_version, CAPABILITY_ABI_VERSION);
    assert_eq!(wire_job.capability_id, "file.read");
    assert_eq!(wire_job.job_id, "job-conv-2");
    assert_eq!(wire_job.run_id.as_deref(), Some("run-conv"));
    assert_eq!(wire_job.workspace.as_deref(), Some("/ws"));
    assert_eq!(wire_job.timeout_secs, 30);
    assert_eq!(wire_job.grants.execution_epoch, Some(t(1000.0)));
    assert_eq!(wire_job.grants.expires_at, Some(t(2000.0)));
    assert_eq!(wire_job.boundary.execution_epoch, Some(t(1000.0)));
    assert_eq!(wire_job.boundary.expires_at, Some(t(2000.0)));
}

#[test]
fn runtime_boundary_converts_to_wire_losslessly() {
    let runtime_boundary = CapabilityBoundary {
        read_roots: vec!["/ws".to_string()],
        write_roots: vec!["/ws/out".to_string()],
        network: vec!["https://api.example.com:443".to_string()],
        exec_allowed: true,
        secrets: vec!["API_KEY".to_string()],
        destructive: true,
        provenance: "policy.approved".to_string(),
        execution_epoch: Some(t(1000.0)),
        expires_at: Some(t(2000.0)),
    };

    let wire_boundary: wire::CapabilityBoundary = runtime_boundary.into();
    assert_eq!(wire_boundary.read_roots, vec!["/ws"]);
    assert_eq!(wire_boundary.write_roots, vec!["/ws/out"]);
    assert_eq!(wire_boundary.network, vec!["https://api.example.com:443"]);
    assert!(wire_boundary.exec_allowed);
    assert_eq!(wire_boundary.secrets, vec!["API_KEY"]);
    assert!(wire_boundary.destructive);
    assert_eq!(wire_boundary.provenance, "policy.approved");
    assert_eq!(wire_boundary.execution_epoch, Some(t(1000.0)));
    assert_eq!(wire_boundary.expires_at, Some(t(2000.0)));
}

#[test]
fn grant_validation_error_converts_to_wire_with_its_code() {
    let converted: wire::GrantValidationError =
        GrantValidationError::GrantInvalid("bad timestamp".to_string()).into();
    assert_eq!(converted.code(), "grant_invalid");
    assert_eq!(
        converted,
        wire::GrantValidationError::GrantInvalid("bad timestamp".to_string())
    );
    let expired: wire::GrantValidationError = GrantValidationError::GrantExpired.into();
    assert_eq!(expired.code(), "grant_expired");
}
