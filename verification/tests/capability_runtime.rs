use delta_core::binary64::Binary64;
use delta_core::capability::abi::{
    CapabilityBoundary, CapabilityExitState, CapabilityGrants, CapabilityJob, CapabilityResult,
};
use delta_core::capability::host::{
    input_file_paths, refuse_before_dispatch, scope_secrets, tool_result_of, unregistered_tool,
    widen_grants, CapabilityHost, CapabilityRegistration,
};
use delta_core::capability::native::{
    interaction_result, read_request, read_result, write_request, write_result,
    NativeCapability, NativeCapabilityRunner, ReadOutcome,
};
use delta_core::capability::runners::{
    bootstrap_variables, classify_frame, finish_worker_run, forced_stop, timeout_reached,
    McpCapabilityRunner, WorkerFrame, WorkerOutput, WorkerProcessRunner, WorkerStatus,
};
use delta_core::json::Json;
use delta_core::runtime::tools::{ToolCall, ToolExitState};
use delta_core::strmap::StrMap;
use std::time::{SystemTime, UNIX_EPOCH};

fn t(value: f64) -> Binary64 {
    Binary64 { bits: value.to_bits() }
}

fn unix_secs() -> f64 {
    SystemTime::now()
        .duration_since(UNIX_EPOCH)
        .map(|d| d.as_secs_f64())
        .unwrap_or(0.0)
}

fn empty_object() -> Json {
    Json::Object(Vec::new())
}

fn shell_runner() -> WorkerProcessRunner {
    WorkerProcessRunner::new(
        "/bin/sh".to_string(),
        vec!["-c true".to_string()],
    )
}

fn map(pairs: &[(&str, &str)]) -> StrMap<String> {
    let mut m = StrMap::new();
    for (k, v) in pairs {
        m.insert(k.to_string(), v.to_string());
    }
    m
}

fn error_code(result: &CapabilityResult) -> Option<String> {
    result
        .diagnostics
        .as_ref()
        .and_then(|d| d.error_code.clone())
}

#[test]
fn native_runner_observes_runtime_cancellation() {
    let runner = NativeCapabilityRunner::new(|job: &CapabilityJob, now: Binary64| {
        CapabilityResult::completed(
            &job.job_id,
            Json::Object(vec![("ok".to_string(), Json::Bool(true))]),
            now,
        )
    });
    let result = runner.run(
        &CapabilityJob::new("native.test", "job-cancel", empty_object()),
        true,
        t(unix_secs()),
    );
    assert_eq!(result.state, CapabilityExitState::Cancelled);
}

#[test]
fn drain_worker_lines_accepts_exactly_one_terminal_result() {
    let now = t(unix_secs());
    let typed = CapabilityResult::completed(
        "job-typed",
        Json::Object(vec![("ok".to_string(), Json::Bool(true))]),
        now,
    );
    let mut output = WorkerOutput::new();
    output.absorb_result("{...}".to_string(), Some(typed), now);
    let result = output.result.unwrap();
    assert_eq!(result.state, CapabilityExitState::Completed);
    assert_eq!(result.job_id, "job-typed");
    assert!(output.stdout_lines.is_empty());
    assert!(output.stderr_lines.is_empty());
}

#[test]
fn drain_worker_lines_rejects_multiple_terminal_results() {
    let now = t(unix_secs());
    let mut output = WorkerOutput::new();
    for _ in 0..2 {
        let typed = CapabilityResult::completed(
            "job-typed",
            Json::Object(vec![("ok".to_string(), Json::Bool(true))]),
            now,
        );
        output.absorb_result("{...}".to_string(), Some(typed), now);
    }
    let result = output.result.unwrap();
    assert_eq!(result.state, CapabilityExitState::Failed);
    assert_eq!(error_code(&result).as_deref(), Some("worker_protocol"));
    assert!(output.stdout_lines.is_empty());
    assert!(output.stderr_lines.is_empty());
}

#[test]
fn worker_process_rejects_secret_key_in_environment() {
    let runner = shell_runner().with_environment(map(&[("OPENAI_API_KEY", "leaked")]));
    let mut job = CapabilityJob::new("secret.test", "job-secret", empty_object());
    job.workspace = Some("/tmp".to_string());
    job.boundary = CapabilityBoundary {
        read_roots: vec!["/tmp".to_string()],
        secrets: vec!["OPENAI_API_KEY".to_string()],
        provenance: "test".to_string(),
        ..Default::default()
    };
    let result = runner
        .refuse_before_start(&job, false, t(unix_secs()))
        .expect("the worker must not start");
    assert_eq!(result.state, CapabilityExitState::Failed);
    assert_eq!(error_code(&result).as_deref(), Some("secret_in_env"));
    assert_eq!(
        result.diagnostics.unwrap().error_message.as_deref(),
        Some("worker environment must not contain a granted secret key: OPENAI_API_KEY")
    );
}

#[test]
fn worker_process_defensive_grant_check() {
    let runner = shell_runner();
    let mut job = CapabilityJob::new("test.expired", "job-expired", empty_object());
    job.workspace = Some("/tmp".to_string());
    job.boundary = CapabilityBoundary {
        read_roots: vec!["/tmp".to_string()],
        expires_at: Some(t(0.0)),
        provenance: "test".to_string(),
        ..Default::default()
    };
    let result = runner
        .refuse_before_start(&job, false, t(unix_secs()))
        .expect("the worker must not start");
    assert_eq!(result.state, CapabilityExitState::Failed);
    assert_eq!(error_code(&result).as_deref(), Some("grant_expired"));
}

#[test]
fn worker_start_checks_cancellation_and_abi_first() {
    let runner = shell_runner();
    let job = CapabilityJob::new("x", "job-x", empty_object());
    let now = t(unix_secs());
    let cancelled = runner.refuse_before_start(&job, true, now).unwrap();
    assert_eq!(cancelled.state, CapabilityExitState::Cancelled);
    let mut old = CapabilityJob::new("x", "job-x", empty_object());
    old.abi_version = 1;
    let mismatch = runner.refuse_before_start(&old, false, now).unwrap();
    assert_eq!(error_code(&mismatch).as_deref(), Some("abi_mismatch"));
    assert!(runner.refuse_before_start(&job, false, now).is_none());
}

#[test]
fn worker_environment_is_clean_and_marks_the_abi() {
    let runner = shell_runner().with_environment(map(&[("MODE", "fast"), ("TEMP", "/mine")]));
    let inherited = map(&[("TEMP", "/tmp"), ("PATH", "/usr/bin")]);
    let env = runner.worker_environment(&inherited);
    assert_eq!(env.get("DELTA_CAPABILITY_ABI").map(String::as_str), Some("2"));
    assert_eq!(env.get("MODE").map(String::as_str), Some("fast"));
    assert_eq!(env.get("TEMP").map(String::as_str), Some("/tmp"));
    assert!(!env.contains_key("PATH"));
    assert_eq!(bootstrap_variables(), vec!["SystemRoot", "WINDIR", "TEMP", "TMP"]);
}

#[test]
fn worker_frames_are_classified_by_type() {
    let progress = Json::Object(vec![
        ("data".to_string(), Json::String("p".to_string())),
        ("type".to_string(), Json::String("progress".to_string())),
    ]);
    assert!(matches!(classify_frame(&progress), WorkerFrame::Progress(Json::String(s)) if s == "p"));
    let result = Json::Object(vec![("type".to_string(), Json::String("result".to_string()))]);
    assert!(matches!(classify_frame(&result), WorkerFrame::Result(Json::Null)));
    let bare = Json::Object(vec![("job_id".to_string(), Json::String("j".to_string()))]);
    assert!(matches!(classify_frame(&bare), WorkerFrame::Result(Json::Object(_))));
}

#[test]
fn supervision_stops_on_cancel_then_timeout() {
    assert_eq!(forced_stop(true, 1, 5), Some(CapabilityExitState::Cancelled));
    assert_eq!(forced_stop(false, 1, 5), Some(CapabilityExitState::TimedOut));
    assert_eq!(forced_stop(false, 0, 5), None);
    assert!(!timeout_reached(10, 9));
    assert!(timeout_reached(10, 10));
}

#[test]
fn worker_process_rejects_untyped_stdout() {
    let now = t(unix_secs());
    let mut output = WorkerOutput::new();
    output.absorb_untyped("worker-ok".to_string());
    assert!(output.observe(
        "job-worker",
        WorkerStatus::Exited { success: true, status: "exit status: 0".to_string() },
        now
    ));
    let result = finish_worker_run("job-worker", None, output, now);
    assert_eq!(result.state, CapabilityExitState::Failed);
    assert_eq!(error_code(&result).as_deref(), Some("worker_protocol"));
    assert_eq!(
        result.diagnostics.unwrap().error_message.as_deref(),
        Some("worker returned no typed result (1 untyped stdout line(s))")
    );
}

#[test]
fn worker_process_is_force_terminated_at_runtime_timeout() {
    let now = t(unix_secs());
    let stop = forced_stop(false, 1, 2);
    let result = finish_worker_run("job-timeout", stop, WorkerOutput::new(), now);
    assert_eq!(result.state, CapabilityExitState::TimedOut);
}

#[test]
fn failed_exit_and_foreign_results_become_failures() {
    let now = t(unix_secs());
    let mut output = WorkerOutput::new();
    output.absorb_stderr("boom".to_string());
    output.observe(
        "job-1",
        WorkerStatus::Exited { success: false, status: "exit status: 3".to_string() },
        now,
    );
    let result = finish_worker_run("job-1", None, output, now);
    let diagnostics = result.diagnostics.unwrap();
    assert_eq!(diagnostics.error_code.as_deref(), Some("worker_exit"));
    assert_eq!(diagnostics.error_message.as_deref(), Some("worker exited with exit status: 3"));
    assert_eq!(diagnostics.stderr_lines, vec!["boom"]);

    let mut output = WorkerOutput::new();
    let foreign = CapabilityResult::completed("other-job", empty_object(), now);
    output.absorb_result("{...}".to_string(), Some(foreign), now);
    let result = finish_worker_run("job-1", None, output, now);
    assert_eq!(result.job_id, "job-1");
    assert_eq!(
        result.diagnostics.unwrap().error_message.as_deref(),
        Some("worker result did not match the requested ABI job")
    );
}

#[test]
fn powershell_worker_runs_a_script_file() {
    let runner = WorkerProcessRunner::powershell("pwsh".to_string(), "job.ps1".to_string());
    assert_eq!(
        runner.arguments,
        vec!["-NoLogo", "-NoProfile", "-NonInteractive", "-File", "job.ps1"]
    );
    assert_eq!(WorkerProcessRunner::python("py".to_string(), "w.py".to_string()).arguments, vec!["w.py"]);
    assert_eq!(WorkerProcessRunner::shell("sh".to_string(), "w.sh".to_string()).arguments, vec!["w.sh"]);
}

#[test]
fn mcp_runner_wraps_the_tool_call_in_a_bridge_job() {
    let runner = McpCapabilityRunner::new("srv".to_string(), shell_runner());
    let job = CapabilityJob::new(
        "mcp.files.read",
        "job-m",
        Json::Object(vec![("p".to_string(), Json::Bool(true))]),
    );
    let bridge = runner.bridge_job(&job);
    assert_eq!(bridge.capability_id, "mcp.call");
    assert_eq!(bridge.job_id, "job-m");
    assert_eq!(bridge.arguments.str_field("server_id"), Some("srv"));
    assert_eq!(bridge.arguments.str_field("tool"), Some("mcp.files.read"));
}

fn registration(tool: &str, grants: CapabilityGrants) -> CapabilityRegistration<&'static str> {
    CapabilityRegistration {
        capability_id: format!("test.{tool}"),
        tool_name: tool.to_string(),
        description: "test".to_string(),
        parameters: Json::Object(vec![("type".to_string(), Json::String("object".to_string()))]),
        metadata: empty_object(),
        grants,
        workspace_write: false,
        runner: "native",
    }
}

/// Builds the job the host would dispatch for `tool`, as the host does.
fn job_for(host: &CapabilityHost<&'static str>, tool: &str) -> CapabilityJob {
    let registration = host.registry.get(tool).expect("registered");
    let grants = widen_grants(registration.grants.duplicate(), Some("/ws".to_string()), false);
    let mut job = CapabilityJob::new(&registration.capability_id, "job", empty_object());
    job.boundary = CapabilityBoundary::from_grants(&grants, "capability.registration".to_string());
    job.grants = grants;
    job
}

#[test]
fn host_rejects_future_grant_before_runner() {
    let now = unix_secs();
    let mut grants = CapabilityGrants::read_only();
    grants.execution_epoch = Some(t(now + 3600.0));
    let mut host = CapabilityHost::new();
    host.register(registration("test_future", grants)).unwrap();
    let job = job_for(&host, "test_future");
    let result = refuse_before_dispatch("call-future", &job, false, t(now)).expect("refused");
    assert_eq!(result.state, ToolExitState::Failed);
    assert!(result
        .error
        .as_ref()
        .is_some_and(|e| e.contains("grant_not_active")));
}

#[test]
fn host_rejects_expired_grant_before_runner() {
    let now = unix_secs();
    let mut grants = CapabilityGrants::read_only();
    grants.expires_at = Some(t(now - 100.0));
    let mut host = CapabilityHost::new();
    host.register(registration("test_expired", grants)).unwrap();
    let job = job_for(&host, "test_expired");
    let result = refuse_before_dispatch("call-expired", &job, false, t(now)).expect("refused");
    assert_eq!(result.state, ToolExitState::Failed);
    assert!(result
        .error
        .as_ref()
        .is_some_and(|e| e.contains("grant_expired")));
}

#[test]
fn host_returns_cancelled_before_dispatch() {
    let mut host = CapabilityHost::new();
    host.register(registration("test_cancel", CapabilityGrants::read_only()))
        .unwrap();
    let job = job_for(&host, "test_cancel");
    let result = refuse_before_dispatch("call-cancel", &job, true, t(unix_secs())).expect("refused");
    assert_eq!(result.state, ToolExitState::Cancelled);
    let call = ToolCall { id: "call-cancel".to_string(), name: "test_cancel".to_string(), arguments: empty_object() };
    let ran = std::cell::Cell::new(false);
    let result = host.execute(
        &call,
        |_| Ok(()),
        |_| Ok(job_for(&host, "test_cancel")),
        || true,
        t(unix_secs()),
        |_, job| {
            ran.set(true);
            CapabilityResult::cancelled(&job.job_id, t(unix_secs()))
        },
    );
    assert!(!ran.get());
    assert_eq!(result.state, ToolExitState::Cancelled);
    assert_eq!(result.error.as_deref(), Some("cancelled before dispatch"));
    assert_eq!(result.output.to_text(), r#"{"cancelled":true,"ok":false}"#);
    assert!(result.staged_artifacts.is_empty());
}

#[test]
fn host_execute_reports_unregistered_gated_and_run_calls() {
    let mut host = CapabilityHost::new();
    host.register(registration("echo", CapabilityGrants::read_only())).unwrap();
    let call = |name: &str| ToolCall { id: "c1".to_string(), name: name.to_string(), arguments: empty_object() };
    let missing = host.execute(&call("nope"), |_| Ok(()), |_| Err("unused".to_string()), || false, t(unix_secs()), |_, job| {
        CapabilityResult::cancelled(&job.job_id, t(unix_secs()))
    });
    assert_eq!(missing.error.as_deref(), Some("capability is not registered: nope"));
    let gated = host.execute(&call("echo"), |_| Err("workspace is not trusted".to_string()), |_| Ok(job_for(&host, "echo")), || false, t(unix_secs()), |_, job| {
        CapabilityResult::cancelled(&job.job_id, t(unix_secs()))
    });
    assert_eq!(gated.state, ToolExitState::Failed);
    assert_eq!(gated.error.as_deref(), Some("workspace is not trusted"));
    let unbuilt = host.execute(&call("echo"), |_| Ok(()), |_| Err("workspace is unavailable".to_string()), || false, t(unix_secs()), |_, job| {
        CapabilityResult::cancelled(&job.job_id, t(unix_secs()))
    });
    assert_eq!(unbuilt.error.as_deref(), Some("workspace is unavailable"));
    let ran = host.execute(&call("echo"), |_| Ok(()), |_| Ok(job_for(&host, "echo")), || false, t(unix_secs()), |_, job| {
        CapabilityResult::cancelled(&job.job_id, t(unix_secs()))
    });
    assert_eq!(ran.state, ToolExitState::Cancelled);
    assert_eq!(ran.error.as_deref(), Some("capability cancelled"));
}

#[test]
fn build_job_filters_secrets_to_granted_scope() {
    let granted = vec!["API_KEY".to_string(), "DB_URL".to_string()];
    let context = map(&[
        ("API_KEY", "sk-xxx"),
        ("DB_URL", "postgres://..."),
        ("UNGRANTED", "should-not-appear"),
    ]);
    let received = scope_secrets(&granted, &StrMap::new(), &context);
    assert_eq!(received.len(), 2);
    assert_eq!(received.get("API_KEY").map(|s| s.as_str()), Some("sk-xxx"));
    assert_eq!(received.get("DB_URL").map(|s| s.as_str()), Some("postgres://..."));
    assert!(!received.contains_key("UNGRANTED"));
}

#[test]
fn no_secrets_delivered_when_grants_empty() {
    let context = map(&[("API_KEY", "sk-xxx")]);
    let received = scope_secrets(&Vec::new(), &map(&[("API_KEY", "resolved")]), &context);
    assert_eq!(received.len(), 0);
}

#[test]
fn context_secrets_override_resolved_values() {
    let granted = vec!["A".to_string(), "B".to_string()];
    let received = scope_secrets(&granted, &map(&[("A", "resolved"), ("B", "resolved-b")]), &map(&[("A", "ctx")]));
    assert_eq!(received.get("A").map(String::as_str), Some("ctx"));
    assert_eq!(received.get("B").map(String::as_str), Some("resolved-b"));
}

#[test]
fn product_registry_owns_stable_model_tool_schemas() {
    let host = CapabilityHost::<NativeCapability>::product_defaults().unwrap();
    let names = match host.tool_schemas() {
        Json::Array(items) => items
            .iter()
            .map(|schema| {
                schema
                    .get("function")
                    .and_then(|f| f.str_field("name"))
                    .unwrap()
                    .to_string()
            })
            .collect::<Vec<_>>(),
        other => panic!("schemas must be a list, got {:?}", other),
    };
    assert_eq!(
        names,
        vec!["ask_user", "propose_plan", "read_file", "request_directory", "write_file"]
    );
}

#[test]
fn registry_refuses_blank_and_duplicate_tools() {
    let mut host = CapabilityHost::new();
    assert_eq!(
        host.register(registration(" ", CapabilityGrants::read_only())),
        Err("capability id and tool name are required".to_string())
    );
    host.register(registration("mcp__a__x", CapabilityGrants::read_only())).unwrap();
    assert_eq!(
        host.register(registration("mcp__a__x", CapabilityGrants::read_only())),
        Err("capability tool is already registered: mcp__a__x".to_string())
    );
    host.register(registration("mcp__a__y", CapabilityGrants::read_only())).unwrap();
    host.register(registration("local", CapabilityGrants::read_only())).unwrap();
    assert_eq!(host.unregister_prefix("mcp__a__"), 2);
    assert!(host.registry.get("local").is_some());
    assert!(host.registry.get("mcp__a__x").is_none());
}

#[test]
fn capability_results_become_tool_results() {
    let now = t(unix_secs());
    let failed = tool_result_of("c1", CapabilityResult::failed("j", "boom", Some("E"), now));
    assert_eq!(failed.state, ToolExitState::Failed);
    assert_eq!(failed.error.as_deref(), Some("boom"));
    let timed_out = tool_result_of("c2", CapabilityResult::timed_out("j", now));
    assert_eq!(timed_out.error.as_deref(), Some("capability timed out"));
    assert!(matches!(timed_out.output, Json::Object(ref m) if m.is_empty()));
    let done = tool_result_of(
        "c3",
        CapabilityResult::completed("j", Json::Null, now).with_output("text".to_string()),
    );
    assert!(done.error.is_none());
    assert!(matches!(done.output, Json::Null));
    let missing = unregistered_tool("c4", "nope");
    assert_eq!(missing.error.as_deref(), Some("capability is not registered: nope"));
}

#[test]
fn native_capabilities_check_their_arguments() {
    let now = t(unix_secs());
    let job = CapabilityJob::new("file.read", "j", empty_object());
    let refused = read_request(&job, now).unwrap_err();
    assert_eq!(error_code(&refused).as_deref(), Some("arguments"));
    let outside = read_result("j", ReadOutcome::OutsideGrants, now);
    assert_eq!(error_code(&outside).as_deref(), Some("grant_denied"));
    let read = read_result("j", ReadOutcome::Read("hello capability".to_string()), now);
    assert_eq!(read.result.unwrap().str_field("text"), Some("hello capability"));

    let mut write = CapabilityJob::new(
        "file.write",
        "w",
        Json::Object(vec![
            ("content".to_string(), Json::String("ready".to_string())),
            ("path".to_string(), Json::String("reports/result.txt".to_string())),
        ]),
    );
    let no_staging = write_request(&write, false, now).unwrap_err();
    assert_eq!(error_code(&no_staging).as_deref(), Some("staging"));
    write.artifact_staging_dir = Some("/ws/.delta/staging/r/w".to_string());
    let request = write_request(&write, false, now).unwrap();
    assert_eq!(request.relative_path, "reports/result.txt");
    assert_eq!(request.content, "ready");
    let staged = write_result("w", request.relative_path, "/ws/.delta/staging/r/w/candidate".to_string(), None, now);
    assert_eq!(staged.artifacts.len(), 1);
    assert_eq!(staged.artifacts[0].relative_path, "reports/result.txt");
    assert_eq!(
        write_request(&write, true, now).unwrap_err().state,
        CapabilityExitState::Cancelled
    );
    let interaction = interaction_result("i", now);
    assert_eq!(error_code(&interaction).as_deref(), Some("runtime_boundary"));
}

#[test]
fn declared_input_files_include_the_read_path() {
    let args = Json::Object(vec![
        (
            "input_files".to_string(),
            Json::Array(vec![Json::String("a.txt".to_string()), Json::Bool(true)]),
        ),
        ("path".to_string(), Json::String("b.txt".to_string())),
    ]);
    assert_eq!(input_file_paths(&args, false), vec!["a.txt", "b.txt"]);
    assert_eq!(input_file_paths(&args, true), vec!["a.txt"]);
}

#[test]
fn product_interaction_schemas_list_their_properties() {
    let host = CapabilityHost::<NativeCapability>::product_defaults().unwrap();
    let directory = host.registry.get("request_directory").unwrap();
    assert_eq!(
        directory.parameters.to_text(),
        r#"{"properties":{"path":{"type":"string"},"reason":{"type":"string"},"writable":{"type":"boolean"}},"required":["reason"],"type":"object"}"#
    );
    assert_eq!(directory.capability_id, "interaction.request_directory");
    let ask = host.registry.get("ask_user").unwrap();
    assert_eq!(
        ask.parameters.to_text(),
        r#"{"properties":{"allow_text":{"type":"boolean"},"options":{"type":"array"},"question":{"type":"string"}},"required":["question"],"type":"object"}"#
    );
    let read = host.registry.get("read_file").unwrap();
    assert_eq!(
        read.parameters.to_text(),
        r#"{"properties":{"path":{"type":"string"}},"required":["path"],"type":"object"}"#
    );
    assert!(host.registry.get("missing").is_none());
}
