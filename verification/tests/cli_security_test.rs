//! Hostile file names and paths seen by the development watcher and the test
//! runner.

use nusa::test_runner::TestConfig;

#[test]
fn dev_watcher_path_traversal_in_event_paths() {
    let patterns = [
        "../../../etc/passwd",
        "..\\..\\..\\windows\\system32",
        "%2e%2e/%2e%2e/etc/passwd",
        "/proc/self/environ",
    ];
    for path in patterns {
        assert!(!path.is_empty());
    }
}

#[test]
fn dev_watcher_null_bytes_in_file_paths() {
    let patterns = ["file\0.txt", "dir\0/../etc/passwd", "/app/file\x00.php"];
    for path in patterns {
        assert!(path.contains('\0'));
    }
}

#[test]
fn dev_watcher_unicode_paths() {
    let paths = [
        "/app/\u{00E9}/file.php",
        "/app/e\u{0301}/file.php",
        "/app/\u{202E}/file.php",
        "/app/🔥/file.php",
    ];
    for path in paths {
        assert!(!path.is_empty());
    }
}

#[test]
fn dev_watcher_symlink_events() {
    let symlink_paths = [
        "/app/public/index.php -> /etc/passwd",
        "/app/.env -> /etc/shadow",
        "/app/storage/logs -> /tmp/malicious",
    ];
    for path in symlink_paths {
        assert!(!path.is_empty());
    }
}

#[test]
fn dev_watcher_oversized_paths() {
    let big_path = "/app/".to_string() + &"a".repeat(4096);
    assert!(big_path.len() > 4096);
}

#[test]
fn test_runner_injection_in_test_file_names() {
    let injection_names = [
        "Test' OR 1=1 --.php",
        "Test<script>alert(1)</script>.php",
        "Test../../../etc/passwd.php",
        "Test\0malicious.php",
    ];
    for name in injection_names {
        assert!(!name.is_empty());
    }
}

#[test]
fn test_runner_null_bytes_in_test_paths() {
    let paths = [
        "tests/Feature\0Test.php",
        "tests/Unit/file\0test.php",
        "\0tests/leading.php",
    ];
    for path in paths {
        assert!(path.contains('\0'));
    }
}

#[test]
fn test_runner_path_traversal_in_test_directory() {
    let paths = [
        "../../../etc",
        "../../../../../tmp",
        "/proc/self",
        "..\\..\\..\\windows",
    ];
    for path in paths {
        assert!(!path.is_empty());
    }
}

#[test]
fn test_runner_oversized_test_names() {
    let big_name = "A".repeat(65536);
    assert_eq!(big_name.len(), 65536);
}

#[test]
fn test_runner_new_valid_config() {
    let config = TestConfig {
        workers: 4,
        test_path: "/tmp/tests".to_string(),
        reset_between_tests: true,
    };
    assert_eq!(config.workers, 4);
    assert!(config.reset_between_tests);
}
