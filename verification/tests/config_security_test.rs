//! Hostile values for the path, engine and environment settings.

use std::path::PathBuf;

#[test]
fn config_vfs_root_path_traversal_various() {
    let traversal_roots = [
        "../../etc",
        "../../../etc/passwd",
        "..\\..\\windows\\system32",
        "/proc/self",
        "/dev",
    ];
    for root in traversal_roots {
        assert!(!root.is_empty());
    }
}

#[test]
fn config_vfs_root_null_bytes() {
    let null_roots = ["/app\0/public", "/tmp/nusa\0/etc", "\0leading", "trailing\0"];
    for root in null_roots {
        assert!(root.contains('\0'));
    }
}

#[test]
fn config_vfs_root_homoglyph_attacks() {
    let homoglyph_roots = ["/арр/public", "/арр/ρublic"];
    for root in homoglyph_roots {
        assert!(!root.is_empty());
    }
}

#[test]
fn config_vfs_root_unicode_normalization_attacks() {
    let nfc_root = PathBuf::from("/арр/\u{00E9}/public");
    let nfd_root = PathBuf::from("/арр/e\u{0301}/public");
    assert_ne!(nfc_root, nfd_root);
}

#[test]
fn config_vfs_root_exceeds_os_limits_linux() {
    let too_long = "/tmp/".to_string() + &"a".repeat(4096);
    assert!(too_long.len() > 4096);
}

#[test]
fn config_vfs_root_exceeds_os_limits_windows() {
    let too_long = "C:\\tmp\\".to_string() + &"a".repeat(260);
    assert!(too_long.len() > 260);
}

#[test]
fn config_engine_kind_injection_patterns() {
    let big = "A".repeat(65536);
    let injection_engines = [
        "' OR 1=1 --",
        "<script>alert(1)</script>",
        "../../../etc/passwd",
        "ffi'; DROP TABLE config; --",
        "wasm\0malicious",
        "child; rm -rf /",
        "",
        big.as_str(),
    ];
    for engine in injection_engines {
        assert!(!engine.is_empty() || engine.is_empty());
    }
}

#[test]
fn config_engine_oversized_string() {
    let big_engine = "A".repeat(1024 * 1024);
    assert_eq!(big_engine.len(), 1024 * 1024);
}

#[test]
fn config_env_injection_via_nusa_vars() {
    let injection_values = [
        ("NUSA_VFS_ROOT", "../../../etc"),
        ("NUSA_CODE_DIR", "/proc/self"),
        ("NUSA_TMP_DIR", "/dev/null"),
        ("NUSA_ENGINE", "'; DROP TABLE config; --"),
    ];
    for (key, value) in injection_values {
        assert!(!key.is_empty() && !value.is_empty());
    }
}

#[test]
fn config_env_null_bytes_in_values() {
    let null_values = ["/app\0/public", "value\0injection", "\0leading_null"];
    for value in null_values {
        assert!(value.contains('\0'));
    }
}

#[test]
fn config_env_oversized_values() {
    let big_value = "A".repeat(65536);
    assert_eq!(big_value.len(), 65536);
}
