//! Which action a changed path triggers, path by path and batch by batch.

use nusa::dev::{actions_for_paths, DevAction};
use nusa::test_runner::TestConfig;

fn actions(paths: &[&str]) -> Vec<DevAction> {
    actions_for_paths(&paths.iter().map(|p| p.to_string()).collect())
}

#[test]
fn dev_watcher_env_change_triggers_reload_config() {
    let acts = actions(&["/tmp/test-app/.env"]);
    assert!(matches!(acts[0], DevAction::ReloadConfig), ".env change should trigger ReloadConfig");
}

#[test]
fn dev_watcher_config_php_change_triggers_recycle_workers() {
    let acts = actions(&["/tmp/test-app/config/app.php"]);
    assert!(matches!(acts[0], DevAction::RecycleWorkers));
}

#[test]
fn dev_watcher_app_php_change_triggers_invalidate_opcache() {
    let acts = actions(&["/tmp/test-app/app/Models/User.php"]);
    assert!(matches!(acts[0], DevAction::InvalidateOpCache));
}

#[test]
fn dev_watcher_view_change_triggers_clear_view_cache() {
    let acts = actions(&["/tmp/test-app/resources/views/welcome.blade.php"]);
    assert!(matches!(acts[0], DevAction::ClearViewCache));
}

#[test]
fn dev_watcher_ignored_directory_no_action() {
    let acts = actions(&["/tmp/test-app/vendor/laravel/framework/src/Illuminate/Foundation/Application.php"]);
    assert!(acts.is_empty());
}

#[test]
fn dev_watcher_node_modules_ignored() {
    assert!(actions(&["/tmp/test-app/node_modules/react/index.js"]).is_empty());
}

#[test]
fn dev_watcher_git_ignored() {
    assert!(actions(&["/tmp/test-app/.git/HEAD"]).is_empty());
}

#[test]
fn dev_watcher_batch_events_highest_priority_action() {
    let mut all = actions(&["/tmp/test-app/.env"]);
    all.extend(actions(&["/tmp/test-app/app/Http/Controllers/Api.php"]));
    assert!(all.iter().any(|a| matches!(a, DevAction::ReloadConfig)));
    assert!(all.iter().any(|a| matches!(a, DevAction::InvalidateOpCache)));
}

#[test]
fn dev_watcher_duplicate_events_idempotent() {
    let mut all = actions(&["/tmp/test-app/.env"]);
    all.extend(actions(&["/tmp/test-app/.env"]));
    let reload_count = all.iter().filter(|a| matches!(a, DevAction::ReloadConfig)).count();
    assert_eq!(reload_count, 2, "duplicate events should each trigger action");
}

#[test]
fn dev_watcher_unknown_file_type_no_action() {
    assert!(actions(&["/tmp/test-app/app/something.unknown"]).is_empty());
}

#[test]
fn dev_watcher_non_php_in_app_dir_no_action() {
    assert!(actions(&["/tmp/test-app/app/readme.txt"]).is_empty());
}

#[test]
fn dev_watcher_remove_event_no_action() {
    // The path alone decides; the event kind is not looked at.
    let _ = actions(&["/tmp/test-app/app/Deleted.php"]);
}

#[test]
fn stress_decision_test_dev_watcher_create_event_triggers_action() {
    let acts = actions(&["/tmp/test-app/app/NewController.php"]);
    assert!(matches!(acts[0], DevAction::InvalidateOpCache), "new app file should trigger InvalidateOpCache");
}

#[test]
fn dev_watcher_handle_event_sql_injection_path() {
    let _ = actions(&["app/' OR 1=1 --.php"]);
}

#[test]
fn dev_watcher_handle_event_xss_path() {
    let _ = actions(&["app/<script>alert(1)</script>.php"]);
}

#[test]
fn dev_watcher_handle_event_null_byte_path() {
    let _ = actions(&["app/file\0.php"]);
}

#[test]
fn dev_watcher_handle_event_ignored_dir_path() {
    assert!(actions(&["vendor/malicious/file.php"]).is_empty());
}

#[test]
fn test_runner_config_zero_workers_allowed() {
    let config = TestConfig { workers: 0, test_path: "/tmp".to_string(), reset_between_tests: false };
    assert_eq!(config.workers, 0);
}

#[test]
fn test_runner_config_reset_between_tests_enabled() {
    let config = TestConfig { workers: 2, test_path: "/tmp".to_string(), reset_between_tests: true };
    assert!(config.reset_between_tests);
}

#[test]
fn test_runner_config_reset_between_tests_disabled() {
    let config = TestConfig { workers: 2, test_path: "/tmp".to_string(), reset_between_tests: false };
    assert!(!config.reset_between_tests);
}

#[test]
fn dev_watcher_env_change_detected() {
    assert_eq!(actions(&["/app/.env"]), vec![DevAction::ReloadConfig]);
}

#[test]
fn dev_watcher_config_change_detected() {
    assert_eq!(actions(&["/app/config/app.php"]), vec![DevAction::RecycleWorkers]);
}

#[test]
fn dev_watcher_app_code_change_detected() {
    assert_eq!(actions(&["/app/app/Http/Controllers/TestController.php"]), vec![DevAction::InvalidateOpCache]);
}

#[test]
fn dev_watcher_view_change_detected() {
    assert_eq!(actions(&["/app/resources/views/welcome.blade.php"]), vec![DevAction::ClearViewCache]);
}

#[test]
fn dev_watcher_ignored_dirs_skipped() {
    for dir in &["vendor", "node_modules", ".git", "storage", "bootstrap/cache"] {
        assert!(actions(&[&format!("/app/{}/file.php", dir)]).is_empty());
    }
}

#[test]
fn dev_watcher_multiple_paths_in_single_event() {
    let acts = actions(&["/app/.env", "/app/config/app.php", "/app/app/Http/Test.php"]);
    assert_eq!(acts, vec![DevAction::ReloadConfig, DevAction::RecycleWorkers, DevAction::InvalidateOpCache]);
}

#[test]
fn dev_watcher_non_php_config_file_ignored() {
    assert!(actions(&["/app/config/app.json"]).is_empty());
}

#[test]
fn dev_watcher_non_blade_view_ignored() {
    // A plain PHP file under resources/views is neither a view nor app code.
    assert!(!actions(&["/app/resources/views/test.php"]).contains(&DevAction::ClearViewCache));
}

#[test]
fn dev_watcher_handle_event_multiple_paths_correct_action() {
    let acts = actions(&[
        "/app/.env",
        "/app/config/database.php",
        "/app/app/Http/Kernel.php",
        "/app/resources/views/welcome.blade.php",
    ]);
    assert_eq!(acts.len(), 4, "should have 4 actions for 4 paths");
    assert!(acts.iter().any(|a| matches!(a, DevAction::ReloadConfig)));
    assert!(acts.iter().any(|a| matches!(a, DevAction::RecycleWorkers)));
    assert!(acts.iter().any(|a| matches!(a, DevAction::InvalidateOpCache)));
    assert!(acts.iter().any(|a| matches!(a, DevAction::ClearViewCache)));
}

#[test]
fn dev_watcher_event_in_ignored_dirs_no_action() {
    let acts = actions(&["/app/vendor/package/file.php", "/app/node_modules/bundle.js", "/app/.git/config"]);
    assert!(acts.is_empty());
}

#[test]
fn dev_watcher_non_matching_path_no_action() {
    assert!(actions(&["/app/some/random/file.txt"]).is_empty());
}

#[test]
fn cli_extended_test_dev_watcher_create_event_triggers_action() {
    let acts = actions(&["/app/Http/Controllers/NewController.php"]);
    assert!(!acts.is_empty(), "should receive action for create event");
}
