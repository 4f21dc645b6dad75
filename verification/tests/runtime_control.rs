use delta_core::runtime::control::{state_from_result, RuntimeControl, RuntimeState};
use delta_core::runtime::retry::{classify_transient_error, is_retryable_error, should_retry};

#[test]
fn test_is_retryable() {
    assert!(is_retryable_error("HTTP 429: rate limited"));
    assert!(is_retryable_error("HTTP 502: bad gateway"));
    assert!(is_retryable_error("HTTP 503: service unavailable"));
    assert!(is_retryable_error("HTTP 504: gateway timeout"));
    assert!(is_retryable_error("connection refused"));
    assert!(is_retryable_error("timeout waiting for response"));
    assert!(!is_retryable_error("HTTP 400: bad request"));
    assert!(!is_retryable_error("invalid api key"));
}

#[test]
fn transient_errors_are_classified() {
    assert_eq!(classify_transient_error("HTTP 429"), "RateLimit");
    assert_eq!(classify_transient_error("HTTP 502"), "ServerError");
    assert_eq!(classify_transient_error("HTTP 503"), "ServerError");
    assert_eq!(classify_transient_error("retry timeout"), "TTFTTimeout");
    assert_eq!(classify_transient_error("Connection reset"), "ConnectionError");
    assert_eq!(classify_transient_error("invalid api key"), "Unknown");
}

#[test]
fn retry_stops_after_visible_output_and_budget() {
    assert!(should_retry(0, 2, false, false, "HTTP 503"));
    assert!(!should_retry(0, 2, true, false, "HTTP 503"));
    assert!(!should_retry(2, 2, false, false, "HTTP 503"));
    assert!(!should_retry(0, 2, false, true, "HTTP 503"));
    assert!(!should_retry(0, 2, false, false, "HTTP 400"));
}

#[test]
fn runtime_state_activity() {
    assert!(RuntimeState::Running.is_active());
    assert!(RuntimeState::WaitingApproval.is_active());
    assert!(RuntimeState::WaitingUser.is_active());
    assert!(RuntimeState::Cancelling.is_active());
    assert!(!RuntimeState::Idle.is_active());
    assert!(!RuntimeState::Completed.is_active());
    assert!(!RuntimeState::Failed.is_active());
    assert!(!RuntimeState::Interrupted.is_active());
    assert_eq!(RuntimeState::WaitingApproval.wire_string(), "waiting_approval");
}

#[test]
fn state_from_result_maps_statuses() {
    assert_eq!(state_from_result(&Err("boom".to_string())), RuntimeState::Failed);
    assert_eq!(state_from_result(&Ok("interrupted".to_string())), RuntimeState::Interrupted);
    assert_eq!(
        state_from_result(&Ok("max_iterations_exceeded".to_string())),
        RuntimeState::Failed
    );
    assert_eq!(state_from_result(&Ok("completed".to_string())), RuntimeState::Completed);
}

#[test]
fn parallel_run_is_rejected() {
    let mut control: RuntimeControl<String, String> = RuntimeControl::new();
    assert!(control.enqueue_operation("session-1").is_ok());
    assert_eq!(control.state(), RuntimeState::Running);
    assert_eq!(
        control.enqueue_operation("session-1"),
        Err("session session-1 already has an active run (Running)".to_string())
    );
}

#[test]
fn test_follow_up_queue_belongs_to_active_handle() {
    let mut control: RuntimeControl<String, String> = RuntimeControl::new();
    assert_eq!(
        control.follow_up("s1", "early".to_string()),
        Err("session s1 has no active run to follow".to_string())
    );
    control.enqueue_operation("s1").unwrap();
    control.follow_up("s1", "then do this".to_string()).unwrap();
    control.follow_up("s1", "and this".to_string()).unwrap();
    assert_eq!(
        control.finish_operation(&Ok("completed".to_string())),
        Some("then do this".to_string())
    );
    assert_eq!(control.state(), RuntimeState::Running);
    assert_eq!(
        control.finish_operation(&Ok("completed".to_string())),
        Some("and this".to_string())
    );
    assert_eq!(control.finish_operation(&Ok("completed".to_string())), None);
    assert_eq!(control.state(), RuntimeState::Completed);
}

#[test]
fn cancel_transitions_active_run_to_interrupted() {
    let mut control: RuntimeControl<String, String> = RuntimeControl::new();
    assert!(!control.cancel());
    control.enqueue_operation("s1").unwrap();
    control.follow_up("s1", "queued".to_string()).unwrap();
    assert!(control.cancel());
    assert_eq!(control.state(), RuntimeState::Cancelling);
    assert!(control.is_cancelled());
    assert_eq!(
        control.steer("s1", "late".to_string()),
        Err("session s1 cannot be steered while Cancelling".to_string())
    );
    assert_eq!(control.finish_operation(&Ok("completed".to_string())), None);
    assert_eq!(control.state(), RuntimeState::Interrupted);
}

#[test]
fn test_steering_queue() {
    let mut control: RuntimeControl<String, String> = RuntimeControl::new();
    control.enqueue_operation("s1").unwrap();
    control.reset_provider_interrupt();
    control.steer("s1", "change direction".to_string()).unwrap();
    assert!(control.provider_interrupted());
    assert_eq!(control.take_steering(), vec!["change direction".to_string()]);
    assert!(control.take_steering().is_empty());
}

#[test]
fn model_switch_is_refused_while_active() {
    let mut control: RuntimeControl<String, String> = RuntimeControl::new();
    assert!(control.ensure_inactive("switch model", "s1").is_ok());
    control.enqueue_operation("s1").unwrap();
    assert_eq!(
        control.ensure_inactive("switch model", "s1"),
        Err("cannot switch model: session s1 has an active run (Running)".to_string())
    );
    let message = control.worker_unavailable("s1");
    assert_eq!(message, "runtime worker for session s1 is unavailable");
    assert_eq!(control.state(), RuntimeState::Failed);
}
