use delta_core::binary64::Binary64;
use delta_core::capability::abi::{CapabilityExitState, CapabilityJob, CapabilityProgress, CapabilityResult};
use delta_core::capability::persistent::{
    input_encoding_failure, input_write_failure, request_lines, session_plan, spawn_failure,
    PersistentRun, PersistentWorkerProcessRunner, SessionPlan, SpawnFault,
};
use delta_core::capability::runners::{job_encoding_failure, worker_input_failure, worker_start_failure};
use delta_core::json::Json;
use delta_core::strmap::StrMap;

fn t(value: f64) -> Binary64 {
    Binary64 { bits: value.to_bits() }
}

fn job(id: &str) -> CapabilityJob {
    CapabilityJob::new("test.cap", id, Json::Object(Vec::new()))
}

fn message(result: &CapabilityResult) -> Option<String> {
    result.diagnostics.as_ref().and_then(|d| d.error_message.clone())
}

fn code(result: &CapabilityResult) -> Option<String> {
    result.diagnostics.as_ref().and_then(|d| d.error_code.clone())
}

fn stderr(result: &CapabilityResult) -> Vec<String> {
    result.diagnostics.as_ref().map(|d| d.stderr_lines.clone()).unwrap_or_default()
}

#[test]
fn sessions_are_reused_started_or_restarted() {
    assert_eq!(session_plan(false, false), SessionPlan::Start);
    assert_eq!(session_plan(true, false), SessionPlan::Reuse);
    assert_eq!(session_plan(true, true), SessionPlan::Restart);
}

#[test]
fn start_failures_are_explained() {
    let now = t(10.0);
    let r = spawn_failure("j1", SpawnFault::Start("no such file".to_string()), now);
    assert_eq!(r.state, CapabilityExitState::Failed);
    assert_eq!(message(&r).as_deref(), Some("persistent worker start failed: no such file"));
    assert_eq!(code(&r).as_deref(), Some("worker_start"));
    let r = spawn_failure("j1", SpawnFault::Stdin, now);
    assert_eq!(message(&r).as_deref(), Some("persistent worker stdin unavailable"));
    let r = input_encoding_failure("j1", "bad", now);
    assert_eq!(message(&r).as_deref(), Some("serialize worker job: bad"));
    assert_eq!(code(&r).as_deref(), Some("worker_input"));
    let r = input_write_failure("j1", now);
    assert_eq!(code(&r).as_deref(), Some("worker_stdin"));
    let r = worker_start_failure("j1", "denied", now);
    assert_eq!(message(&r).as_deref(), Some("worker start failed: denied"));
    let r = worker_input_failure("j1", true, now);
    assert_eq!(message(&r).as_deref(), Some("worker secret delivery failed"));
    let r = worker_input_failure("j1", false, now);
    assert_eq!(message(&r).as_deref(), Some("worker input failed"));
    let r = job_encoding_failure("j1", "oops", now);
    assert_eq!(code(&r).as_deref(), Some("job_serialize"));
}

#[test]
fn job_and_secrets_go_on_two_lines() {
    assert_eq!(request_lines("{\"job\":1}", Some("{\"K\":\"v\"}")), "{\"job\":1}\n{\"K\":\"v\"}\n");
    assert_eq!(request_lines("{}", None), "{}\n{}\n");
}

#[test]
fn granted_secret_in_environment_stops_the_start() {
    let mut env = StrMap::new();
    env.insert("API_KEY".to_string(), "x".to_string());
    let runner = PersistentWorkerProcessRunner::new("/bin/worker".to_string(), Vec::new()).with_environment(env);
    let mut j = job("j1");
    j.boundary.secrets = vec!["API_KEY".to_string()];
    let refused = runner.refuse_start(&j, t(1.0)).unwrap();
    assert_eq!(
        message(&refused).as_deref(),
        Some("persistent worker environment must not contain a granted secret key: API_KEY")
    );
    j.boundary.secrets = Vec::new();
    assert!(runner.refuse_start(&j, t(1.0)).is_none());
    assert!(runner.refuse_before_dispatch(&j, true, t(1.0)).is_some());
}

#[test]
fn runs_end_by_deadline_cancellation_or_result() {
    let mut j = job("j1");
    j.timeout_secs = 2;
    let run = PersistentRun::new(&j);
    assert_eq!(run.forced_end(true, 0), Some(CapabilityExitState::Cancelled));
    assert_eq!(run.forced_end(false, 1999), None);
    assert_eq!(run.forced_end(false, 2000), Some(CapabilityExitState::TimedOut));
    let progress = CapabilityProgress { job_id: "j1".to_string(), fraction: t(0.5), stage: None, message: None };
    assert!(run.forwards(&progress));

    let mut run = PersistentRun::new(&j);
    run.absorb_stderr("warning".to_string());
    let ended = run.end_forced(CapabilityExitState::TimedOut, t(3.0));
    assert_eq!(ended.state, CapabilityExitState::TimedOut);
    assert_eq!(stderr(&ended), vec!["warning".to_string()]);

    let run = PersistentRun::new(&j);
    let ended = run.end_disconnected(t(3.0));
    assert_eq!(message(&ended).as_deref(), Some("persistent worker exited before returning a result"));

    let run = PersistentRun::new(&j);
    let (ok, stop) = run.end_with(CapabilityResult::completed("j1", Json::Bool(true), t(3.0)), t(3.0));
    assert!(!stop);
    assert_eq!(ok.state, CapabilityExitState::Completed);
    let run = PersistentRun::new(&j);
    let (wrong, stop) = run.end_with(CapabilityResult::completed("other", Json::Bool(true), t(3.0)), t(3.0));
    assert!(stop);
    assert_eq!(wrong.job_id, "j1");
    assert_eq!(code(&wrong).as_deref(), Some("worker_protocol"));
}

#[test]
fn job_timeouts_below_a_second_wait_one_second() {
    let run = PersistentRun::new(&job("j2"));
    assert_eq!(run.forced_end(false, 999), None);
    assert_eq!(run.forced_end(false, 1000), Some(CapabilityExitState::TimedOut));
}
