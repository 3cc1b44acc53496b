//! Asynchronous I/O bridge selection (`NUSA_ASYNC_IO`) and the read-only
//! guard of its SQL path.
use vstd::prelude::*;
use crate::sql::{is_readonly_sql, readonly_sql};
use crate::text::{chars_of, str_eq};

verus! {

/// Which bridge the environment selects.
#[derive(Debug, Clone, Copy, PartialEq, Eq, Structural)]
pub enum BridgeKind {
    /// The default no-op bridge.
    Noop,
    /// The SQLite spike bridge.
    SpikeSqlite,
}

/// The setting equals `t`.
pub open spec fn setting_is(value: Option<&str>, t: Seq<char>) -> bool {
    match value {
        Some(v) => v@ == t,
        None => false,
    }
}

fn setting_equals(value: Option<&str>, t: &str) -> (b: bool)
    ensures
        b == setting_is(value, t@),
{
    match value {
        Some(v) => str_eq(v, t),
        None => false,
    }
}

/// The bridge for a `NUSA_ASYNC_IO` setting: `stub` selects the SQLite
/// spike, anything else (or nothing) the no-op bridge.
pub fn bridge_kind(value: Option<&str>) -> (k: BridgeKind)
    ensures
        k == (if setting_is(value, "stub"@) { BridgeKind::SpikeSqlite } else { BridgeKind::Noop }),
{
    if setting_equals(value, "stub") { BridgeKind::SpikeSqlite } else { BridgeKind::Noop }
}

/// Whether the setting requests an experimental bridge: `1`, `true` or `stub`.
pub fn async_io_requested(value: Option<&str>) -> (b: bool)
    ensures
        b == (setting_is(value, "1"@) || setting_is(value, "true"@) || setting_is(value, "stub"@)),
{
    setting_equals(value, "1") || setting_equals(value, "true") || setting_equals(value, "stub")
}

/// Whether the setting selects the stub SQLite bridge: exactly `stub`.
pub fn async_io_stub(value: Option<&str>) -> (b: bool)
    ensures
        b == setting_is(value, "stub"@),
{
    setting_equals(value, "stub")
}

/// The production default bridge, which offloads nothing.
#[derive(Debug, Clone, Copy)]
pub struct NoopAsyncIoBridge;

impl NoopAsyncIoBridge {
    /// The bridge's name.
    pub fn name(&self) -> (s: &'static str)
        ensures
            s@ == "noop"@,
    {
        "noop"
    }
}

/// Name of the SQLite spike bridge.
pub fn spike_bridge_name() -> (s: &'static str)
    ensures
        s@ == "spike-sqlite"@,
{
    "spike-sqlite"
}

/// Why the SQL path refused a statement before running it.
#[derive(Debug, Clone, Copy, PartialEq, Eq, Structural)]
pub enum SqlRefusal {
    /// Not single-statement read-only SQL.
    DisallowedSql,
}

/// The guard of the spike bridge: only statements of the read-only
/// allowlist reach the database.
pub fn guard_readonly(sql: &str) -> (r: Result<(), SqlRefusal>)
    ensures
        r is Ok <==> readonly_sql(sql@),
{
    if is_readonly_sql(sql) { Ok(()) } else { Err(SqlRefusal::DisallowedSql) }
}

/// A cell of a SQLite result row, as far as the bridge reads it: the kind of
/// value, with the integer or the text it holds, and a blob's length.
#[derive(Debug, Clone, PartialEq, Eq)]
pub enum SqlCell {
    Null,
    Integer(i64),
    /// A floating-point value (its value is not read here).
    Real,
    Text(String),
    Blob(usize),
}

/// A statement's result is a single integer exactly when it has one column
/// and one row whose cell is an integer.
pub open spec fn scalar_result(column_count: usize, rows: Seq<Seq<SqlCell>>) -> Option<i64> {
    if column_count == 1 && rows.len() == 1 && rows[0].len() >= 1 {
        match rows[0][0] {
            SqlCell::Integer(i) => Some(i),
            _ => None,
        }
    } else {
        None
    }
}

/// Decides whether a statement's rows are answered as a single integer.
pub fn scalar_of(column_count: usize, rows: &Vec<Vec<SqlCell>>) -> (r: Option<i64>)
    ensures
        r == scalar_result(column_count, rows@.map_values(|row: Vec<SqlCell>| row@)),
{
    let ghost rs = rows@.map_values(|row: Vec<SqlCell>| row@);
    if column_count == 1 && rows.len() == 1 && rows[0].len() >= 1 {
        assert(rs[0] == rows@[0]@);
        match &rows[0][0] {
            SqlCell::Integer(i) => Some(*i),
            _ => None,
        }
    } else {
        None
    }
}

/// Whether a prepared statement produces result columns; a statement with
/// none is answered with no rows, without running it for rows.
pub fn has_result_columns(column_count: usize) -> (b: bool)
    ensures
        b == (column_count > 0),
{
    column_count > 0
}

/// `a` comes before `b` in the order of `String`s (character by character,
/// by code point; a proper prefix comes first).
pub open spec fn name_lt(a: Seq<char>, b: Seq<char>) -> bool
    decreases a.len(),
{
    if a.len() == 0 {
        b.len() > 0
    } else if b.len() == 0 {
        false
    } else if a[0] != b[0] {
        (a[0] as int) < (b[0] as int)
    } else {
        name_lt(a.skip(1), b.skip(1))
    }
}

/// `name_lt` is irreflexive.
proof fn lemma_name_irrefl(a: Seq<char>)
    ensures
        !name_lt(a, a),
    decreases a.len(),
{
    if a.len() > 0 {
        lemma_name_irrefl(a.skip(1));
    }
}

/// `name_lt` is asymmetric and total on distinct names.
proof fn lemma_name_total(a: Seq<char>, b: Seq<char>)
    ensures
        !(name_lt(a, b) && name_lt(b, a)),
        a != b ==> name_lt(a, b) || name_lt(b, a),
    decreases a.len(),
{
    if a.len() > 0 && b.len() > 0 {
        lemma_name_total(a.skip(1), b.skip(1));
        if a[0] != b[0] {
            assert((a[0] as int) != (b[0] as int));
        }
        if a[0] == b[0] && a.skip(1) == b.skip(1) {
            assert(a =~= seq![a[0]] + a.skip(1));
            assert(b =~= seq![b[0]] + b.skip(1));
        }
    } else if a.len() == 0 && b.len() == 0 {
        assert(a =~= b);
    }
}

/// `name_lt` is transitive.
proof fn lemma_name_trans(a: Seq<char>, b: Seq<char>, c: Seq<char>)
    ensures
        name_lt(a, b) && name_lt(b, c) ==> name_lt(a, c),
    decreases a.len(),
{
    if a.len() > 0 && b.len() > 0 && c.len() > 0 {
        lemma_name_trans(a.skip(1), b.skip(1), c.skip(1));
    }
}

/// `name_lt` is a strict total order.
pub proof fn lemma_name_order(a: Seq<char>, b: Seq<char>, c: Seq<char>)
    ensures
        !name_lt(a, a),
        !(name_lt(a, b) && name_lt(b, a)),
        a != b ==> name_lt(a, b) || name_lt(b, a),
        name_lt(a, b) && name_lt(b, c) ==> name_lt(a, c),
{
    lemma_name_irrefl(a);
    lemma_name_total(a, b);
    lemma_name_trans(a, b, c);
}

/// Orders two names as `name_lt` does.
pub fn name_less(a: &Vec<char>, b: &Vec<char>) -> (r: bool)
    ensures
        r == name_lt(a@, b@),
{
    let mut i: usize = 0;
    assert(a@.skip(0) =~= a@);
    assert(b@.skip(0) =~= b@);
    while i < a.len() && i < b.len() && a[i] == b[i]
        invariant
            i <= a.len(),
            i <= b.len(),
            name_lt(a@, b@) == name_lt(a@.skip(i as int), b@.skip(i as int)),
        decreases a.len() - i,
    {
        assert(a@.skip(i as int).skip(1) =~= a@.skip(i + 1));
        assert(b@.skip(i as int).skip(1) =~= b@.skip(i + 1));
        i = i + 1;
    }
    if i == a.len() {
        i < b.len()
    } else if i == b.len() {
        false
    } else {
        a[i] < b[i]
    }
}

/// Position `j` holds the row's first key in the order of a JSON object's
/// keys (the least name; of equal names the last column, whose value the
/// object keeps).
pub open spec fn is_first_key(row: Seq<(Seq<char>, SqlCell)>, j: int) -> bool {
    &&& 0 <= j < row.len()
    &&& forall|k: int| 0 <= k < row.len() ==> !name_lt(#[trigger] row[k].0, row[j].0)
    &&& forall|k: int| j < k < row.len() ==> #[trigger] row[k].0 != row[j].0
}

/// The integer that the first value of the first row holds, when the rows
/// are read as JSON objects keyed by column name: `None` for no rows, an
/// empty row, or a first value that is not an integer.
pub open spec fn first_scalar(rows: Seq<Seq<(Seq<char>, SqlCell)>>) -> Option<i64> {
    if rows.len() == 0 || rows[0].len() == 0 {
        None
    } else {
        let j = choose|j: int| is_first_key(rows[0], j);
        match rows[0][j].1 {
            SqlCell::Integer(i) => Some(i),
            _ => None,
        }
    }
}

/// The names and cells of a row, as values.
pub open spec fn row_view(row: Vec<(String, SqlCell)>) -> Seq<(Seq<char>, SqlCell)> {
    row@.map_values(|e: (String, SqlCell)| (e.0@, e.1))
}

/// Reads the first scalar out of rows of named cells (see `first_scalar`).
pub fn first_scalar_of(rows: &Vec<Vec<(String, SqlCell)>>) -> (r: Option<i64>)
    ensures
        r == first_scalar(rows@.map_values(|row: Vec<(String, SqlCell)>| row_view(row))),
{
    let ghost rs = rows@.map_values(|row: Vec<(String, SqlCell)>| row_view(row));
    if rows.len() == 0 || rows[0].len() == 0 {
        proof {
            if rows.len() > 0 {
                assert(rs[0] == row_view(rows@[0]));
            }
        }
        return None;
    }
    let row = &rows[0];
    let ghost rv = row_view(rows@[0]);
    assert(rs[0] == rv);
    let mut best: usize = 0;
    let mut best_name = chars_of(row[0].0.as_str());
    let mut k: usize = 1;
    proof { lemma_name_irrefl(rv[0].0); }
    while k < row.len()
        invariant
            1 <= k <= row.len(),
            row == &rows[0],
            rv == row_view(rows@[0]),
            best < k,
            best_name@ == rv[best as int].0,
            forall|m: int| 0 <= m < k ==> !name_lt(#[trigger] rv[m].0, rv[best as int].0),
            forall|m: int| best < m < k ==> #[trigger] rv[m].0 != rv[best as int].0,
        decreases row.len() - k,
    {
        let name = chars_of(row[k].0.as_str());
        assert(name@ == rv[k as int].0);
        if !name_less(&best_name, &name) {
            proof {
                assert forall|m: int| 0 <= m < k + 1 implies !name_lt(#[trigger] rv[m].0, rv[k as int].0) by {
                    lemma_name_order(rv[m].0, rv[k as int].0, rv[best as int].0);
                    lemma_name_order(rv[k as int].0, rv[best as int].0, rv[m].0);
                    if rv[k as int].0 == rv[best as int].0 {
                    } else {
                        assert(name_lt(rv[k as int].0, rv[best as int].0));
                    }
                }
            }
            best = k;
            best_name = name;
        } else {
            proof {
                lemma_name_order(rv[k as int].0, rv[best as int].0, rv[k as int].0);
                assert forall|m: int| 0 <= m < k + 1 implies !name_lt(#[trigger] rv[m].0, rv[best as int].0) by {
                }
                assert forall|m: int| best < m < k + 1 implies #[trigger] rv[m].0 != rv[best as int].0 by {
                }
            }
        }
        k = k + 1;
    }
    proof {
        assert(is_first_key(rv, best as int));
        let j = choose|j: int| is_first_key(rv, j);
        assert(j == best) by {
            lemma_name_order(rv[j].0, rv[best as int].0, rv[j].0);
            if rv[j].0 != rv[best as int].0 {
            }
            if j < best {
                assert(rv[best as int].0 != rv[j].0);
            } else if j > best {
                assert(rv[j].0 != rv[best as int].0);
            }
        }
    }
    match &row[best].1 {
        SqlCell::Integer(i) => Some(*i),
        _ => None,
    }
}

} // verus!
