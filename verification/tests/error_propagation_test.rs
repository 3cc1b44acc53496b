//! How engine errors reach the HTTP layer.

use nusa::error::EngineError;

#[test]
fn error_engine_timeout_maps_to_408() {
    let err = EngineError::Timeout;
    assert_eq!(err.to_http_status(), 408);
}

#[test]
fn error_engine_php_fatal_maps_to_502() {
    let err = EngineError::PhpFatal("test error".into());
    assert_eq!(err.to_http_status(), 502);
}

#[test]
fn error_engine_sandbox_maps_to_500() {
    let err = EngineError::Sandbox("sandbox violation".into());
    assert_eq!(err.to_http_status(), 500);
}

#[test]
fn error_display_includes_message() {
    let err = EngineError::PhpFatal("database connection failed".into());
    let msg = err.to_string();
    assert!(msg.contains("database connection failed"), "message: {}", msg);
}
