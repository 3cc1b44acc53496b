//! The read-only SQL allowlist of the async I/O bridge.

use nusa::async_io::{guard_readonly, SqlRefusal};
use nusa::sql::is_readonly_sql;

#[test]
fn readonly_sql_allowlist_basic() {
    assert!(is_readonly_sql("SELECT 1"));
    assert!(is_readonly_sql("  select count(*) from users "));
    assert!(is_readonly_sql("WITH t AS (SELECT 1) SELECT * FROM t"));
    assert!(!is_readonly_sql("INSERT INTO x VALUES (1)"));
    assert!(!is_readonly_sql("SELECT 1; DROP TABLE x"));
}

#[test]
fn readonly_sql_allowlist_bypass_matrix() {
    assert!(!is_readonly_sql("SELECT 1; DROP TABLE users"));
    assert!(!is_readonly_sql("SELECT * INTO OUTFILE '/tmp/x'"));
    assert!(!is_readonly_sql("SELECT * FROM x FOR UPDATE"));
    assert!(!is_readonly_sql("PRAGMA writable_schema=1"));
    assert!(is_readonly_sql("PRAGMA journal_mode=WAL"));
    assert!(!is_readonly_sql("SELECT/* comment */1"));
    assert!(is_readonly_sql("SELECT /* safe */ 1"));
    assert!(!is_readonly_sql("SELECT\n1; DROP TABLE x"));
    assert!(is_readonly_sql("select 1"));
    assert!(!is_readonly_sql(""));
    assert!(!is_readonly_sql("   "));
    assert!(is_readonly_sql("EXPLAIN SELECT * FROM users"));
    assert!(is_readonly_sql("SELECT (SELECT (SELECT 1))"));
    assert!(!is_readonly_sql("UPDATE users SET name = 'evil'"));
    assert!(!is_readonly_sql("DELETE FROM users WHERE 1=1"));
    assert!(!is_readonly_sql("CREATE TABLE evil (id INT)"));
    assert!(!is_readonly_sql("DROP TABLE users"));
    assert!(!is_readonly_sql("ALTER TABLE users ADD COLUMN evil INT"));
    assert!(!is_readonly_sql("ATTACH DATABASE 'evil.db' AS evil"));
    assert!(!is_readonly_sql("DETACH DATABASE evil"));
    assert!(!is_readonly_sql("REINDEX"));
    assert!(!is_readonly_sql("VACUUM"));
    assert!(!is_readonly_sql("BEGIN TRANSACTION"));
    assert!(!is_readonly_sql("COMMIT"));
    assert!(!is_readonly_sql("ROLLBACK"));
    assert!(!is_readonly_sql("PRAGMA writable_schema = ON"));
    let cte_write = "WITH x AS (SELECT 1) INSERT INTO y SELECT * FROM x";
    assert!(!is_readonly_sql(cte_write), "CTE with INSERT INTO must be rejected");
    assert!(is_readonly_sql("  \n  SELECT 1"));
    assert!(is_readonly_sql("\tSELECT\t1"));
    assert!(!is_readonly_sql("SELECT 1;"));
    assert!(is_readonly_sql("SELECT 1\x00"));
}

#[test]
fn readonly_sql_whitespace_kinds() {
    assert!(is_readonly_sql("\t\nSELECT\t1\r\n"));
    assert!(is_readonly_sql("\u{3000}select 1"));
    assert!(!is_readonly_sql("\u{3000}"));
}

#[test]
fn guard_readonly_refuses_writes() {
    assert_eq!(guard_readonly("SELECT 1"), Ok(()));
    assert_eq!(guard_readonly("DELETE FROM t"), Err(SqlRefusal::DisallowedSql));
}
