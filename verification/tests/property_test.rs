//! Invariants checked over ranges of inputs.

use nusa::guards::{validate_request_size, ResourceGuard};
use nusa::tenant::{TenantConfig, TenantRegistry};
use nusa::types::TenantId;

#[test]
fn property_tenant_registration_idempotent() {
    let repeated_a = "a".repeat(64);
    let valid_names = vec![
        "acme",
        "tenant-123",
        "my_tenant",
        "a",
        repeated_a.as_str(),
        "tenant-with-dashes",
        "tenant_with_underscores",
        "tenant123",
        "UPPERCASE",
        "MixedCase",
    ];
    let mut registry = TenantRegistry::new();
    for name in valid_names {
        let config = TenantConfig {
            id: TenantId::new(name),
            vfs_root: "/app/public".into(),
            max_memory_mb: 256,
            max_requests_per_minute: 60,
            enabled: true,
        };
        registry.register(config.clone());
        registry.register(config.clone());
        assert!(
            registry.is_enabled(&config.id),
            "tenant {} should be enabled after double registration",
            name
        );
    }
}

#[test]
fn property_request_size_under_limit_passes() {
    let limit: usize = 1024;
    for size in 0..=limit {
        assert!(
            validate_request_size(Some(size as u64), limit),
            "size {} should pass limit {}",
            size,
            limit
        );
    }
    assert!(validate_request_size(None, limit));
}

#[test]
fn property_request_size_over_limit_fails() {
    let limit: usize = 1024;
    for size in (limit + 1)..=(limit + 100) {
        assert!(
            !validate_request_size(Some(size as u64), limit),
            "size {} should fail limit {}",
            size,
            limit
        );
    }
}

#[test]
fn property_resource_guard_clone_preserves_values() {
    let guard = ResourceGuard { max_request_bytes: 5000, request_timeout_ms: 3000, max_concurrent: 10 };
    let clone = guard.clone();
    assert_eq!(guard.max_request_bytes, clone.max_request_bytes);
    assert_eq!(guard.request_timeout_ms, clone.request_timeout_ms);
    assert_eq!(guard.max_concurrent, clone.max_concurrent);
}

#[test]
fn property_tenant_id_string_roundtrip() {
    let names = vec![
        "test",
        "test-123",
        "my_tenant_name",
        "a",
        "ab",
        "abc",
        "tenant-with-many-dashes-and-numbers-123",
    ];
    for name in names {
        let id = TenantId::new(name);
        assert_eq!(id.as_str(), name);
        assert_eq!(id.to_string(), name);
    }
}

#[test]
fn property_registering_other_tenant_keeps_admission() {
    let mut registry = TenantRegistry::new();
    let a = TenantId::new("a");
    let b = TenantId::new("b");
    registry.register(TenantConfig {
        id: a.clone(),
        vfs_root: "/a".into(),
        max_memory_mb: 1,
        max_requests_per_minute: 1,
        enabled: true,
    });
    assert!(registry.is_enabled(&a));
    assert!(!registry.is_enabled(&b));
    registry.register(TenantConfig {
        id: b.clone(),
        vfs_root: "/b".into(),
        max_memory_mb: 1,
        max_requests_per_minute: 1,
        enabled: false,
    });
    assert!(registry.is_enabled(&a));
    assert!(!registry.is_enabled(&b));
}
