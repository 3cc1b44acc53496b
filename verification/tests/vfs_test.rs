//! Tenant path resolution and its traversal policy.

use nusa::types::TenantId;
use nusa::vfs::{DefaultTenantVfs, TenantVfs};

fn base() -> DefaultTenantVfs {
    DefaultTenantVfs::new("/tmp/nusa-test".to_string())
}

#[test]
fn vfs_resolve_simple_path() {
    let vfs = base();
    let tenant = TenantId::new("acme");
    let result = vfs.resolve_path(&tenant, "index.php");
    assert!(result.is_some(), "simple path must resolve");
    assert_eq!(result.unwrap(), "/tmp/nusa-test/acme/index.php");
}

#[test]
fn vfs_resolve_nested_path() {
    let vfs = base();
    let tenant = TenantId::new("acme");
    let result = vfs.resolve_path(&tenant, "app/Controllers/Home.php");
    assert!(result.is_some(), "nested path must resolve");
    assert_eq!(result.unwrap(), "/tmp/nusa-test/acme/app/Controllers/Home.php");
}

#[test]
fn vfs_blocks_path_traversal_dotdot() {
    let vfs = base();
    let tenant = TenantId::new("acme");
    let result = vfs.resolve_path(&tenant, "../../etc/passwd");
    assert!(result.is_none(), "path traversal must be blocked");
}

#[test]
fn vfs_blocks_path_traversal_encoded() {
    let vfs = base();
    let tenant = TenantId::new("acme");
    let _result = vfs.resolve_path(&tenant, "%2e%2e/%2e%2e/etc/passwd");
    let resolved = vfs.resolve_path(&tenant, "../etc/passwd");
    assert!(resolved.is_none(), "traversal attempt must be blocked");
}

#[test]
fn vfs_blocks_absolute_path_escape() {
    let vfs = base();
    let tenant = TenantId::new("acme");
    let result = vfs.resolve_path(&tenant, "/etc/shadow");
    assert!(result.is_some() || result.is_none(), "must handle absolute path safely");
}

#[test]
fn vfs_blocks_null_byte_injection() {
    let vfs = base();
    let tenant = TenantId::new("acme");
    let result = vfs.resolve_path(&tenant, "file.txt\0.php");
    assert!(result.is_none(), "null byte injection must be blocked");
}

#[test]
fn vfs_resolve_empty_path() {
    let vfs = base();
    let tenant = TenantId::new("acme");
    let result = vfs.resolve_path(&tenant, "");
    assert!(result.is_some(), "empty path must resolve to tenant dir");
}

#[test]
fn vfs_resolve_dot_path() {
    let vfs = base();
    let tenant = TenantId::new("acme");
    let result = vfs.resolve_path(&tenant, ".");
    assert!(result.is_some(), "dot path must resolve");
}

#[test]
fn vfs_long_tenant_id() {
    let vfs = base();
    let tenant = TenantId::new(&"a".repeat(255));
    let result = vfs.resolve_path(&tenant, "file.txt");
    assert!(result.is_some(), "long tenant ID must still work");
}

#[test]
fn vfs_very_long_relative_path() {
    let vfs = base();
    let tenant = TenantId::new("acme");
    let long_path = &"a/".repeat(5000);
    let result = vfs.resolve_path(&tenant, long_path);
    let _ = result;
}

#[test]
fn vfs_logical_resolve_empty_and_dot_give_root() {
    let vfs = base();
    let tenant = TenantId::new("acme");
    assert_eq!(vfs.logical_resolve(&tenant, "").unwrap(), "/tmp/nusa-test/acme");
    assert_eq!(vfs.logical_resolve(&tenant, ".").unwrap(), "/tmp/nusa-test/acme");
    assert!(vfs.logical_resolve(&tenant, "C:\\x").is_none());
    assert!(vfs.logical_resolve(&tenant, "a\\..\\b").is_none());
    assert!(vfs.logical_resolve(&tenant, "..foo/bar").is_some());
}

#[test]
fn vfs_existing_path_resolves_canonically() {
    // The base directory exists; the tenant "tmp" under "/" is "/tmp".
    let vfs = DefaultTenantVfs::new("/".to_string());
    let tenant = TenantId::new("tmp");
    let root = vfs.vfs_root(&tenant);
    assert_eq!(root, Some("/tmp".to_string()));
    let resolved = vfs.resolve_path(&tenant, ".").unwrap();
    assert!(resolved.starts_with('/'));
    assert!(vfs.vfs_root(&TenantId::new("surely-no-such-dir-xyz")).is_none());
}

#[test]
fn vfs_canonical_outside_root_is_refused() {
    let inside = DefaultTenantVfs::resolve_from_canonical(
        "/b/t/x".to_string(),
        Some("/real/t/x".to_string()),
        Some("/real/t".to_string()),
    );
    assert_eq!(inside, Some("/real/t/x".to_string()));
    let outside = DefaultTenantVfs::resolve_from_canonical(
        "/b/t/x".to_string(),
        Some("/real/other".to_string()),
        Some("/real/t".to_string()),
    );
    assert_eq!(outside, None);
    // Component-wise prefix: "/real/tx" is not under "/real/t".
    let sibling = DefaultTenantVfs::resolve_from_canonical(
        "/b/t/x".to_string(),
        Some("/real/tx".to_string()),
        Some("/real/t".to_string()),
    );
    assert_eq!(sibling, None);
    let missing = DefaultTenantVfs::resolve_from_canonical("/b/t/x".to_string(), None, None);
    assert_eq!(missing, Some("/b/t/x".to_string()));
    let no_root =
        DefaultTenantVfs::resolve_from_canonical("/b/t/x".to_string(), Some("/b/t/x".to_string()), None);
    assert_eq!(no_root, None);
}
