//! Every engine error: its message and its HTTP status.

use nusa::error::EngineError;

#[test]
fn engine_error_timeout_display_and_status() {
    let err = EngineError::Timeout;
    assert_eq!(err.to_string(), "execution timeout");
    assert_eq!(err.to_http_status(), 408);
}

#[test]
fn engine_error_sandbox_display_and_status() {
    let err = EngineError::Sandbox("memory violation".into());
    assert!(err.to_string().contains("memory violation"));
    assert_eq!(err.to_http_status(), 500);
}

#[test]
fn engine_error_php_fatal_display_and_status() {
    let err = EngineError::PhpFatal("segfault at 0x0".into());
    assert!(err.to_string().contains("segfault"));
    assert_eq!(err.to_http_status(), 502);
}

#[test]
fn engine_error_resource_limit_display_and_status() {
    let err = EngineError::ResourceLimit;
    assert_eq!(err.to_string(), "resource limit exceeded");
    assert_eq!(err.to_http_status(), 429);
}

#[test]
fn engine_error_plugin_display_and_status() {
    let err = EngineError::Plugin("hook failed".into());
    assert!(err.to_string().contains("hook failed"));
    assert_eq!(err.to_http_status(), 500);
}

#[test]
fn engine_error_ipc_protocol_display_and_status() {
    let err = EngineError::IpcProtocol("malformed frame".into());
    assert!(err.to_string().contains("malformed frame"));
    assert_eq!(err.to_http_status(), 500);
}

#[test]
fn engine_error_all_variants_match() {
    let errors: Vec<EngineError> = vec![
        EngineError::Timeout,
        EngineError::Sandbox("test".into()),
        EngineError::PhpFatal("test".into()),
        EngineError::ResourceLimit,
        EngineError::Plugin("test".into()),
        EngineError::IpcProtocol("test".into()),
    ];
    for err in errors {
        let status = match &err {
            EngineError::Timeout => 408,
            EngineError::Sandbox(_) => 500,
            EngineError::PhpFatal(_) => 502,
            EngineError::ResourceLimit => 429,
            EngineError::Plugin(_) => 500,
            EngineError::IpcProtocol(_) => 500,
        };
        assert_eq!(status, err.to_http_status());
    }
}

#[test]
fn error_test_engine_error_empty_message() {
    let err = EngineError::Sandbox("".into());
    let display = err.to_string();
    assert!(display.contains(""));
}

#[test]
fn error_test_engine_error_very_long_message() {
    let long_msg = "x".repeat(10_000);
    let err = EngineError::Sandbox(long_msg.clone());
    let display = err.to_string();
    assert!(display.len() > 0);
}

#[test]
fn engine_error_messages_are_prefixed() {
    assert_eq!(EngineError::Sandbox("m".into()).to_string(), "sandbox violation: m");
    assert_eq!(EngineError::PhpFatal("m".into()).to_string(), "PHP fatal error: m");
    assert_eq!(EngineError::Plugin("m".into()).to_string(), "plugin error: m");
    assert_eq!(EngineError::IpcProtocol("m".into()).to_string(), "IPC protocol error: m");
}
