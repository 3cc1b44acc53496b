//! The summary line of a test run.

use nusa::test_runner::TestResult;

#[test]
fn test_result_display_formatting_correct() {
    let result = TestResult { total: 10, passed: 8, failed: 2 };
    let display = result.to_string();
    assert!(display.contains("10 total"));
    assert!(display.contains("8 passed"));
    assert!(display.contains("2 failed"));
}

#[test]
fn test_result_display_zero_counts() {
    let result = TestResult { total: 0, passed: 0, failed: 0 };
    let display = result.to_string();
    assert!(display.contains("0 total"));
    assert!(display.contains("0 passed"));
    assert!(display.contains("0 failed"));
}

#[test]
fn test_result_display_all_passed() {
    let result = TestResult { total: 5, passed: 5, failed: 0 };
    let display = result.to_string();
    assert!(display.contains("5 total"));
    assert!(display.contains("5 passed"));
    assert!(display.contains("0 failed"));
}
