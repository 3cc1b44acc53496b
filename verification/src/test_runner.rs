//! `nusa test`: which files are tests, how PHPUnit's TeamCity output is
//! counted, and how a run is summarised.
use vstd::prelude::*;
use crate::text::{chars_of, decimal, ends_with, has_prefix, has_suffix, matches_at, push_decimal};

verus! {

/// Test pool configuration.
#[derive(Debug)]
pub struct TestConfig {
    pub workers: u32,
    pub test_path: String,
    pub reset_between_tests: bool,
}

/// Test execution results.
#[derive(Debug, Clone, Copy)]
pub struct TestResult {
    pub total: usize,
    pub passed: usize,
    pub failed: usize,
}

/// The summary line of a run.
pub open spec fn summary(total: nat, passed: nat, failed: nat) -> Seq<char> {
    "Tests: "@ + decimal(total) + " total, "@ + decimal(passed) + " passed, "@ + decimal(failed) + " failed"@
}

impl TestResult {
    /// `Tests: {total} total, {passed} passed, {failed} failed` (what
    /// displaying it prints).
    pub fn to_string(&self) -> (s: String)
        ensures
            s@ == summary(self.total as nat, self.passed as nat, self.failed as nat),
    {
        let mut s = "Tests: ".to_string();
        push_decimal(&mut s, self.total as u64);
        s.append(" total, ");
        push_decimal(&mut s, self.passed as u64);
        s.append(" passed, ");
        push_decimal(&mut s, self.failed as u64);
        s.append(" failed");
        s
    }
}

/// A test file: a PHP file named `*Test.php` or `*_test.php`.
pub open spec fn test_file_name(name: Seq<char>) -> bool {
    has_suffix(name, "Test.php"@) || has_suffix(name, "_test.php"@)
}

/// Whether a file name names a test file.
pub fn is_test_file_name(name: &str) -> (b: bool)
    ensures
        b == test_file_name(name@),
{
    let n = chars_of(name);
    ends_with(&n, &chars_of("Test.php")) || ends_with(&n, &chars_of("_test.php"))
}

/// Non-overlapping occurrences of `p` in `s`, scanning left to right
/// (`str::matches(..).count()`).
pub open spec fn occurrences(s: Seq<char>, p: Seq<char>) -> nat
    decreases s.len(),
{
    if s.len() == 0 || p.len() == 0 {
        0
    } else if has_prefix(s, p) {
        1 + occurrences(s.skip(p.len() as int), p)
    } else {
        occurrences(s.skip(1), p)
    }
}

/// Counts the non-overlapping occurrences of a non-empty pattern.
pub fn count_occurrences(s: &str, p: &str) -> (n: usize)
    requires
        p@.len() > 0,
    ensures
        n == occurrences(s@, p@),
{
    let sv = chars_of(s);
    let pv = chars_of(p);
    let mut i: usize = 0;
    let mut n: usize = 0;
    assert(sv@.skip(0) =~= sv@);
    while i < sv.len()
        invariant
            i <= sv.len(),
            pv@.len() > 0,
            n <= i,
            n + occurrences(sv@.skip(i as int), pv@) == occurrences(sv@, pv@),
        decreases sv.len() - i,
    {
        let ghost rest = sv@.skip(i as int);
        if matches_at(&sv, &pv, i) {
            assert(rest.subrange(0, pv@.len() as int) =~= sv@.subrange(i as int, i + pv@.len()));
            assert(has_prefix(rest, pv@));
            assert(rest.skip(pv@.len() as int) =~= sv@.skip(i + pv@.len()));
            n = n + 1;
            i = i + pv.len();
        } else {
            proof {
                if has_prefix(rest, pv@) {
                    assert(sv@.subrange(i as int, i + pv@.len()) =~= rest.subrange(0, pv@.len() as int));
                }
            }
            assert(rest.skip(1) =~= sv@.skip(i + 1));
            i = i + 1;
        }
    }
    assert(sv@.skip(i as int).len() == 0);
    n
}

/// A run summarised from PHPUnit's TeamCity output: tests counted by
/// `##teamcity[testCount`, passes by `##teamcity[testFinished`, failures by
/// `##teamcity[testFailed`.
pub fn teamcity_result(stdout: &str) -> (r: TestResult)
    ensures
        r.total == occurrences(stdout@, "##teamcity[testCount"@),
        r.passed == occurrences(stdout@, "##teamcity[testFinished"@),
        r.failed == occurrences(stdout@, "##teamcity[testFailed"@),
{
    proof {
        reveal_strlit("##teamcity[testCount");
        reveal_strlit("##teamcity[testFinished");
        reveal_strlit("##teamcity[testFailed");
    }
    TestResult {
        total: count_occurrences(stdout, "##teamcity[testCount"),
        passed: count_occurrences(stdout, "##teamcity[testFinished"),
        failed: count_occurrences(stdout, "##teamcity[testFailed"),
    }
}

/// The number of `true` entries.
pub open spec fn count_true(s: Seq<bool>) -> nat
    decreases s.len(),
{
    if s.len() == 0 { 0 } else { count_true(s.drop_last()) + if s.last() { 1nat } else { 0nat } }
}

/// A run summarised from the outcome (passed or not) of each test file.
pub fn summarize(outcomes: &Vec<bool>) -> (r: TestResult)
    ensures
        r.total == outcomes@.len(),
        r.passed == count_true(outcomes@),
        r.failed + r.passed == outcomes@.len(),
{
    let mut passed: usize = 0;
    let mut failed: usize = 0;
    let mut i: usize = 0;
    while i < outcomes.len()
        invariant
            i <= outcomes.len(),
            passed == count_true(outcomes@.take(i as int)),
            passed + failed == i,
        decreases outcomes.len() - i,
    {
        assert(outcomes@.take(i + 1).drop_last() =~= outcomes@.take(i as int));
        if outcomes[i] {
            passed = passed + 1;
        } else {
            failed = failed + 1;
        }
        i = i + 1;
    }
    assert(outcomes@.take(outcomes.len() as int) =~= outcomes@);
    TestResult { total: outcomes.len(), passed, failed }
}

/// The request URI a test file is run through.
pub fn test_request_uri(test_file: &str) -> (u: String)
    ensures
        u@ == "/test/"@ + test_file@,
{
    let mut u = "/test/".to_string();
    u.append(test_file);
    u
}

} // verus!
