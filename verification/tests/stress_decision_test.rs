//! Decision tables of request size validation, the tenant registry, the
//! resource guard, tenant identifiers and task results.

use nusa::guards::{validate_request_size, ResourceGuard};
use nusa::task::TaskResult;
use nusa::tenant::{TenantConfig, TenantRegistry};
use nusa::types::TenantId;

fn tenant(id: &TenantId, root: &str, mem: u64, rpm: u64, enabled: bool) -> TenantConfig {
    TenantConfig {
        id: id.clone(),
        vfs_root: root.into(),
        max_memory_mb: mem,
        max_requests_per_minute: rpm,
        enabled,
    }
}

#[test]
fn validate_request_size_unknown_size_accepts() {
    assert!(validate_request_size(None, 1024), "unknown size -> accept");
}

#[test]
fn validate_request_size_under_limit_accepts() {
    assert!(validate_request_size(Some(512), 1024), "under limit -> accept");
}

#[test]
fn validate_request_size_at_limit_accepts() {
    assert!(validate_request_size(Some(1024), 1024), "at limit -> accept");
}

#[test]
fn validate_request_size_over_limit_rejects() {
    assert!(!validate_request_size(Some(1025), 1024), "over limit -> reject");
}

#[test]
fn validate_request_size_zero_size_accepts() {
    assert!(validate_request_size(Some(0), 1024), "zero size -> accept");
}

#[test]
fn validate_request_size_max_size_accepts() {
    let max = usize::MAX;
    assert!(validate_request_size(Some(max as u64), max), "MAX size -> accept");
}

#[test]
fn validate_request_size_large_payload_rejects() {
    assert!(
        !validate_request_size(Some(11 * 1024 * 1024), 10 * 1024 * 1024),
        "11MB over 10MB limit -> reject"
    );
}

#[test]
fn tenant_registry_register_not_exists_creates() {
    let mut registry = TenantRegistry::new();
    let id = TenantId::new("new-tenant");
    registry.register(tenant(&id, "/tmp/tenant", 256, 100, true));
    assert!(registry.get(&id).is_some(), "register not exists -> Some");
}

#[test]
fn tenant_registry_register_exists_overwrites() {
    let mut registry = TenantRegistry::new();
    let id = TenantId::new("overwrite-tenant");
    registry.register(tenant(&id, "/tmp/old", 256, 100, true));
    registry.register(tenant(&id, "/tmp/new", 512, 200, true));
    let got = registry.get(&id).expect("should exist after overwrite");
    assert_eq!(got.vfs_root, "/tmp/new");
    assert_eq!(got.max_memory_mb, 512);
}

#[test]
fn tenant_registry_get_exists_returns_some() {
    let mut registry = TenantRegistry::new();
    let id = TenantId::new("get-tenant");
    registry.register(tenant(&id, "/tmp/test", 256, 100, true));
    assert!(registry.get(&id).is_some());
}

#[test]
fn tenant_registry_get_not_exists_returns_none() {
    let registry = TenantRegistry::new();
    let id = TenantId::new("missing-tenant");
    assert!(registry.get(&id).is_none());
}

#[test]
fn stress_decision_test_tenant_registry_is_enabled_true() {
    let mut registry = TenantRegistry::new();
    let id = TenantId::new("enabled-tenant");
    registry.register(tenant(&id, "/tmp/test", 256, 100, true));
    assert!(registry.is_enabled(&id));
}

#[test]
fn stress_decision_test_tenant_registry_is_enabled_false() {
    let mut registry = TenantRegistry::new();
    let id = TenantId::new("disabled-tenant");
    registry.register(tenant(&id, "/tmp/test", 256, 100, false));
    assert!(!registry.is_enabled(&id));
}

#[test]
fn tenant_registry_is_enabled_missing_returns_false() {
    let mut registry = TenantRegistry::new();
    registry.register(tenant(&TenantId::new("known"), "/t", 256, 100, true));
    let id = TenantId::new("missing-tenant");
    assert!(!registry.is_enabled(&id));
}

#[test]
fn tenant_registry_state_register_get_returns_some() {
    let mut registry = TenantRegistry::new();
    let id = TenantId::new("state-test");
    registry.register(tenant(&id, "/tmp/test", 256, 100, true));
    assert!(registry.get(&id).is_some());
}

#[test]
fn tenant_registry_state_reregister_get_returns_some() {
    let mut registry = TenantRegistry::new();
    let id = TenantId::new("reregister-test");
    registry.register(tenant(&id, "/tmp/old", 256, 100, true));
    registry.register(tenant(&id, "/tmp/new", 512, 200, true));
    assert!(registry.get(&id).is_some());
    assert_eq!(registry.get(&id).unwrap().max_memory_mb, 512);
}

#[test]
fn tenant_registry_register_idempotent_single() {
    let mut registry = TenantRegistry::new();
    let id = TenantId::new("idempotent-tenant");
    let config = tenant(&id, "/tmp/test", 256, 100, true);
    registry.register(config.clone());
    registry.register(config);
    let got = registry.get(&id).expect("should exist");
    assert_eq!(got.vfs_root, "/tmp/test");
}

#[test]
fn tenant_registry_register_idempotent_n_times() {
    let mut registry = TenantRegistry::new();
    let id = TenantId::new("idempotent-n");
    let config = tenant(&id, "/tmp/test", 256, 100, true);
    for _ in 0..100 {
        registry.register(config.clone());
    }
    let got = registry.get(&id).expect("should exist");
    assert_eq!(got.vfs_root, "/tmp/test");
    assert_eq!(got.max_memory_mb, 256);
}

#[test]
fn resource_guard_default_values_within_sla() {
    let guard = ResourceGuard::default();
    assert_eq!(guard.max_request_bytes, 10 * 1024 * 1024);
    assert_eq!(guard.request_timeout_ms, 30_000);
    assert_eq!(guard.max_concurrent, 100);
}

#[test]
fn stress_decision_test_resource_guard_clone_preserves_values() {
    let guard = ResourceGuard {
        max_request_bytes: 5 * 1024 * 1024,
        request_timeout_ms: 15_000,
        max_concurrent: 50,
    };
    let cloned = guard.clone();
    assert_eq!(cloned.max_request_bytes, 5 * 1024 * 1024);
    assert_eq!(cloned.request_timeout_ms, 15_000);
    assert_eq!(cloned.max_concurrent, 50);
}

#[test]
fn tenant_id_new_as_str_roundtrip() {
    let id = TenantId::new("my-tenant");
    assert_eq!(id.as_str(), "my-tenant");
}

#[test]
fn tenant_id_display_matches_inner() {
    let id = TenantId::new("display-tenant");
    assert_eq!(id.to_string(), "display-tenant");
}

#[test]
fn tenant_id_eq_hash_same_value() {
    let id1 = TenantId::new("same");
    let id2 = TenantId::new("same");
    assert_eq!(id1, id2);
}

#[test]
fn tenant_id_different_values_not_equal() {
    let id1 = TenantId::new("a");
    let id2 = TenantId::new("b");
    assert_ne!(id1, id2);
}

#[test]
fn task_result_success_fields() {
    let result = TaskResult { success: true, data: vec![1, 2, 3], error: None };
    assert!(result.success);
    assert_eq!(result.data, vec![1, 2, 3]);
    assert!(result.error.is_none());
}

#[test]
fn task_result_failure_fields() {
    let result = TaskResult { success: false, data: vec![], error: Some("error message".into()) };
    assert!(!result.success);
    assert!(result.data.is_empty());
    assert!(result.error.is_some());
}
