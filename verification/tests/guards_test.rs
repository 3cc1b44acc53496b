//! Resource guard defaults, request size validation and timeouts.

use nusa::error::EngineError;
use nusa::guards::{timeout_budget, timeout_outcome, validate_request_size, ResourceGuard};

#[test]
fn resource_guard_default_values() {
    let guard = ResourceGuard::default();
    assert_eq!(guard.max_request_bytes, 10 * 1024 * 1024);
    assert_eq!(guard.request_timeout_ms, 30_000);
    assert_eq!(guard.max_concurrent, 100);
}

#[test]
fn guards_test_resource_guard_clone_preserves_values() {
    let guard = ResourceGuard::default();
    let cloned = guard.clone();
    assert_eq!(guard.max_request_bytes, cloned.max_request_bytes);
    assert_eq!(guard.request_timeout_ms, cloned.request_timeout_ms);
    assert_eq!(guard.max_concurrent, cloned.max_concurrent);
}

#[test]
fn validate_request_size_allows_under_limit() {
    assert!(validate_request_size(Some(100), 1024));
    assert!(validate_request_size(Some(1024), 1024));
}

#[test]
fn validate_request_size_rejects_over_limit() {
    assert!(!validate_request_size(Some(1025), 1024));
    assert!(!validate_request_size(Some(10_000_000), 1024));
}

#[test]
fn validate_request_size_allows_unknown_size() {
    assert!(validate_request_size(None, 1024));
}

#[test]
fn validate_request_size_zero_allowed() {
    assert!(validate_request_size(Some(0), 1024));
}

#[test]
fn zero_limit_refuses_unknown_size_too() {
    assert!(!validate_request_size(None, 0));
    assert!(!validate_request_size(Some(0), 0));
}

#[test]
fn timeout_budget_zero_refuses() {
    assert_eq!(timeout_budget(0), None);
    assert_eq!(timeout_budget(5_000), Some(5_000));
}

#[test]
fn timeout_outcome_keeps_result_or_times_out() {
    let done: Result<&str, EngineError> = timeout_outcome(Some(Ok("success")));
    assert_eq!(done.unwrap(), "success");
    let failed: Result<&str, EngineError> =
        timeout_outcome(Some(Err(EngineError::PhpFatal("boom".into()))));
    assert!(matches!(failed, Err(EngineError::PhpFatal(ref m)) if m == "boom"));
    let late: Result<&str, EngineError> = timeout_outcome(None);
    assert!(matches!(late, Err(EngineError::Timeout)));
}
