//! Read-only SQL allowlist for the asynchronous I/O bridge.
use vstd::prelude::*;
use crate::text::{chars_of, contains, contains_char, has_infix, same_chars};

verus! {

/// Unicode `White_Space` (what `char::is_whitespace` tests).
pub open spec fn is_ws(c: char) -> bool {
    ||| ('\u{9}' <= c && c <= '\u{d}')
    ||| c == ' '
    ||| c == '\u{85}'
    ||| c == '\u{a0}'
    ||| c == '\u{1680}'
    ||| ('\u{2000}' <= c && c <= '\u{200a}')
    ||| c == '\u{2028}'
    ||| c == '\u{2029}'
    ||| c == '\u{202f}'
    ||| c == '\u{205f}'
    ||| c == '\u{3000}'
}

/// Executable `is_ws`.
pub fn is_whitespace(c: char) -> (b: bool)
    ensures
        b == is_ws(c),
{
    ('\u{9}' <= c && c <= '\u{d}') || c == ' ' || c == '\u{85}' || c == '\u{a0}'
        || c == '\u{1680}' || ('\u{2000}' <= c && c <= '\u{200a}') || c == '\u{2028}'
        || c == '\u{2029}' || c == '\u{202f}' || c == '\u{205f}' || c == '\u{3000}'
}

/// `i` is the first index of a non-whitespace character.
pub open spec fn is_first_solid(s: Seq<char>, i: int) -> bool {
    &&& 0 <= i < s.len()
    &&& !is_ws(s[i])
    &&& forall|j: int| 0 <= j < i ==> is_ws(s[j])
}

/// `i` is the last index of a non-whitespace character.
pub open spec fn is_last_solid(s: Seq<char>, i: int) -> bool {
    &&& 0 <= i < s.len()
    &&& !is_ws(s[i])
    &&& forall|j: int| i < j < s.len() ==> is_ws(s[j])
}

/// `i` is the first index of a whitespace character.
pub open spec fn is_first_ws(s: Seq<char>, i: int) -> bool {
    &&& 0 <= i < s.len()
    &&& is_ws(s[i])
    &&& forall|j: int| 0 <= j < i ==> !is_ws(s[j])
}

/// `s` with leading and trailing whitespace removed (`str::trim`).
pub open spec fn trim(s: Seq<char>) -> Seq<char> {
    if exists|i: int| is_first_solid(s, i) {
        let a = choose|i: int| is_first_solid(s, i);
        let b = choose|i: int| is_last_solid(s, i);
        s.subrange(a, b + 1)
    } else {
        Seq::empty()
    }
}

/// The first whitespace-separated word of a text that does not start with
/// whitespace (the first item of `str::split_whitespace`).
pub open spec fn first_word(s: Seq<char>) -> Seq<char> {
    if exists|i: int| is_first_ws(s, i) {
        s.take(choose|i: int| is_first_ws(s, i))
    } else {
        s
    }
}

/// ASCII upper-casing of one character.
pub open spec fn ascii_upper(c: char) -> char {
    if 'a' <= c && c <= 'z' {
        ((c as u32 - 32) as u8) as char
    } else {
        c
    }
}

/// ASCII upper-casing of a text (`str::to_ascii_uppercase`).
pub open spec fn upper(s: Seq<char>) -> Seq<char> {
    s.map_values(|c: char| ascii_upper(c))
}

/// The statements a read-only query may begin with.
pub open spec fn readonly_keyword(w: Seq<char>) -> bool {
    ||| w == seq!['S', 'E', 'L', 'E', 'C', 'T']
    ||| w == seq!['W', 'I', 'T', 'H']
    ||| w == seq!['P', 'R', 'A', 'G', 'M', 'A']
    ||| w == seq!['E', 'X', 'P', 'L', 'A', 'I', 'N']
}

/// The allowlist: after trimming, a single non-empty statement without `;`,
/// whose first word (upper-cased) is SELECT, WITH, PRAGMA or EXPLAIN, that
/// holds neither ` INTO ` nor ` FOR UPDATE`, and that is no PRAGMA mentioning
/// `WRITABLE`.
pub open spec fn readonly_sql(sql: Seq<char>) -> bool {
    let t = trim(sql);
    let u = upper(t);
    let w = first_word(u);
    &&& t.len() > 0
    &&& !t.contains(';')
    &&& readonly_keyword(w)
    &&& !has_infix(u, seq![' ', 'I', 'N', 'T', 'O', ' '])
    &&& !has_infix(u, seq![' ', 'F', 'O', 'R', ' ', 'U', 'P', 'D', 'A', 'T', 'E'])
    &&& (w != seq!['P', 'R', 'A', 'G', 'M', 'A'] || !has_infix(u, seq!['W', 'R', 'I', 'T', 'A', 'B', 'L', 'E']))
}

/// Trims leading and trailing whitespace.
pub fn trim_chars(s: &Vec<char>) -> (t: Vec<char>)
    ensures
        t@ == trim(s@),
{
    let mut a: usize = 0;
    while a < s.len() && is_whitespace(s[a])
        invariant
            a <= s.len(),
            forall|j: int| 0 <= j < a ==> is_ws(s@[j]),
        decreases s.len() - a,
    {
        a = a + 1;
    }
    if a == s.len() {
        assert(!exists|i: int| is_first_solid(s@, i));
        return Vec::new();
    }
    assert(is_first_solid(s@, a as int));
    let mut b: usize = s.len() - 1;
    while is_whitespace(s[b])
        invariant
            a <= b < s.len(),
            !is_ws(s@[a as int]),
            forall|j: int| b < j < s.len() ==> is_ws(s@[j]),
        decreases b,
    {
        b = b - 1;
    }
    assert(is_last_solid(s@, b as int));
    proof {
        let ca = choose|i: int| is_first_solid(s@, i);
        let cb = choose|i: int| is_last_solid(s@, i);
        assert(ca == a) by {
            if ca < a {
            } else if ca > a {
            }
        }
        assert(cb == b) by {
            if cb < b {
            } else if cb > b {
            }
        }
    }
    let mut t: Vec<char> = Vec::new();
    let mut i: usize = a;
    while i <= b
        invariant
            a <= i <= b + 1,
            b < s.len(),
            t@ == s@.subrange(a as int, i as int),
        decreases b + 1 - i,
    {
        t.push(s[i]);
        assert(s@.subrange(a as int, i + 1) =~= s@.subrange(a as int, i as int).push(s@[i as int]));
        i = i + 1;
    }
    t
}

/// ASCII upper-casing.
pub fn upper_chars(s: &Vec<char>) -> (u: Vec<char>)
    ensures
        u@ == upper(s@),
{
    let mut u: Vec<char> = Vec::new();
    let mut i: usize = 0;
    while i < s.len()
        invariant
            i <= s.len(),
            u@ == upper(s@.take(i as int)),
        decreases s.len() - i,
    {
        let c = s[i];
        let d = if 'a' <= c && c <= 'z' {
            ((c as u32 - 32) as u8) as char
        } else {
            c
        };
        u.push(d);
        assert(upper(s@.take(i + 1)) =~= upper(s@.take(i as int)).push(ascii_upper(c)));
        i = i + 1;
    }
    assert(s@.take(s.len() as int) =~= s@);
    u
}

/// The first word: the characters before the first whitespace.
pub fn first_word_chars(s: &Vec<char>) -> (w: Vec<char>)
    ensures
        w@ == first_word(s@),
{
    let mut w: Vec<char> = Vec::new();
    let mut i: usize = 0;
    while i < s.len() && !is_whitespace(s[i])
        invariant
            i <= s.len(),
            forall|j: int| 0 <= j < i ==> !is_ws(s@[j]),
            w@ == s@.take(i as int),
        decreases s.len() - i,
    {
        w.push(s[i]);
        assert(s@.take(i + 1) =~= s@.take(i as int).push(s@[i as int]));
        i = i + 1;
    }
    if i < s.len() {
        assert(is_first_ws(s@, i as int));
        proof {
            let c = choose|k: int| is_first_ws(s@, k);
            assert(c == i) by {
                if c < i {
                } else if c > i {
                }
            }
        }
    } else {
        assert(!exists|k: int| is_first_ws(s@, k));
        assert(s@.take(i as int) =~= s@);
    }
    w
}

/// True for single-statement read-only SQL (the allowlist of `readonly_sql`).
pub fn is_readonly_sql(sql: &str) -> (b: bool)
    ensures
        b == readonly_sql(sql@),
{
    let s = chars_of(sql);
    let t = trim_chars(&s);
    if t.len() == 0 || contains_char(&t, ';') {
        return false;
    }
    let u = upper_chars(&t);
    let w = first_word_chars(&u);
    let select = vec!['S', 'E', 'L', 'E', 'C', 'T'];
    let with = vec!['W', 'I', 'T', 'H'];
    let pragma = vec!['P', 'R', 'A', 'G', 'M', 'A'];
    let explain = vec!['E', 'X', 'P', 'L', 'A', 'I', 'N'];
    let is_pragma = same_chars(&w, &pragma);
    if !(same_chars(&w, &select) || same_chars(&w, &with) || is_pragma || same_chars(&w, &explain)) {
        return false;
    }
    if contains(&u, &vec![' ', 'I', 'N', 'T', 'O', ' '])
        || contains(&u, &vec![' ', 'F', 'O', 'R', ' ', 'U', 'P', 'D', 'A', 'T', 'E']) {
        return false;
    }
    !is_pragma || !contains(&u, &vec!['W', 'R', 'I', 'T', 'A', 'B', 'L', 'E'])
}

/// Law: a statement holding `;` anywhere is refused (stacked queries never
/// pass), since trimming only removes whitespace.
pub proof fn law_semicolon_refused(sql: Seq<char>, k: int)
    requires
        0 <= k < sql.len(),
        sql[k] == ';',
    ensures
        !readonly_sql(sql),
{
    assert(!is_ws(sql[k]));
    assert(exists|i: int| is_first_solid(sql, i)) by {
        lemma_first_solid_exists(sql, k);
    }
    let a = choose|i: int| is_first_solid(sql, i);
    assert(exists|i: int| is_last_solid(sql, i)) by {
        lemma_last_solid_exists(sql, k);
    }
    let b = choose|i: int| is_last_solid(sql, i);
    assert(a <= k) by {
        if a > k {
            assert(is_ws(sql[k]));
        }
    }
    assert(k <= b) by {
        if k > b {
            assert(is_ws(sql[k]));
        }
    }
    let t = trim(sql);
    assert(t == sql.subrange(a, b + 1));
    assert(t[k - a] == ';');
    assert(t.contains(';'));
}

/// A non-whitespace character means a first non-whitespace index exists.
proof fn lemma_first_solid_exists(s: Seq<char>, k: int)
    requires
        0 <= k < s.len(),
        !is_ws(s[k]),
    ensures
        exists|i: int| is_first_solid(s, i),
    decreases k,
{
    if forall|j: int| 0 <= j < k ==> is_ws(s[j]) {
        assert(is_first_solid(s, k));
    } else {
        let j = choose|j: int| 0 <= j < k && !is_ws(s[j]);
        lemma_first_solid_exists(s, j);
    }
}

/// A non-whitespace character means a last non-whitespace index exists.
proof fn lemma_last_solid_exists(s: Seq<char>, k: int)
    requires
        0 <= k < s.len(),
        !is_ws(s[k]),
    ensures
        exists|i: int| is_last_solid(s, i),
    decreases s.len() - k,
{
    if forall|j: int| k < j < s.len() ==> is_ws(s[j]) {
        assert(is_last_solid(s, k));
    } else {
        let j = choose|j: int| k < j < s.len() && !is_ws(s[j]);
        lemma_last_solid_exists(s, j);
    }
}

/// ASCII lower-casing of one character.
pub open spec fn ascii_lower(c: char) -> char {
    if 'A' <= c && c <= 'Z' {
        ((c as u32 + 32) as u8) as char
    } else {
        c
    }
}

/// ASCII lower-casing of a text (`str::to_ascii_lowercase`).
pub open spec fn lower_ascii(s: Seq<char>) -> Seq<char> {
    s.map_values(|c: char| ascii_lower(c))
}

/// Law: the answer does not depend on ASCII case: lower-casing or
/// upper-casing the statement's ASCII letters leaves it unchanged.
pub proof fn law_sql_case_blind(sql: Seq<char>)
    ensures
        readonly_sql(lower_ascii(sql)) == readonly_sql(sql),
        readonly_sql(upper(sql)) == readonly_sql(sql),
{
    assert forall|i: int| 0 <= i < sql.len() implies {
        let c = sql[i];
        let d = #[trigger] lower_ascii(sql)[i];
        &&& ascii_upper(d) == ascii_upper(c)
        &&& is_ws(d) == is_ws(c)
        &&& (d == ';') == (c == ';')
    } by {
        lemma_case_char(sql[i]);
    }
    lemma_same_verdict(sql, lower_ascii(sql));
    assert forall|i: int| 0 <= i < sql.len() implies {
        let c = sql[i];
        let d = #[trigger] upper(sql)[i];
        &&& ascii_upper(d) == ascii_upper(c)
        &&& is_ws(d) == is_ws(c)
        &&& (d == ';') == (c == ';')
    } by {
        lemma_case_char(sql[i]);
    }
    lemma_same_verdict(sql, upper(sql));
}

/// Law: whitespace around the statement does not change the answer.
pub proof fn law_sql_surrounding_whitespace(sql: Seq<char>, before: Seq<char>, after: Seq<char>)
    requires
        forall|i: int| 0 <= i < before.len() ==> is_ws(#[trigger] before[i]),
        forall|i: int| 0 <= i < after.len() ==> is_ws(#[trigger] after[i]),
    ensures
        readonly_sql(before + sql + after) == readonly_sql(sql),
{
    let w = before + sql + after;
    let n = before.len() as int;
    if exists|k: int| 0 <= k < sql.len() && !is_ws(sql[k]) {
        let k = choose|k: int| 0 <= k < sql.len() && !is_ws(sql[k]);
        lemma_first_solid_exists(sql, k);
        lemma_last_solid_exists(sql, k);
        let a = choose|i: int| is_first_solid(sql, i);
        let b = choose|i: int| is_last_solid(sql, i);
        assert(is_first_solid(w, n + a)) by {
            assert forall|j: int| 0 <= j < n + a implies is_ws(w[j]) by {
                if j < n {
                    assert(w[j] == before[j]);
                } else {
                    assert(w[j] == sql[j - n]);
                }
            }
            assert(w[n + a] == sql[a]);
        }
        assert(is_last_solid(w, n + b)) by {
            assert forall|j: int| n + b < j < w.len() implies is_ws(w[j]) by {
                if j < n + sql.len() {
                    assert(w[j] == sql[j - n]);
                } else {
                    assert(w[j] == after[j - n - sql.len()]);
                }
            }
            assert(w[n + b] == sql[b]);
        }
        lemma_trim_at(sql, a, b);
        lemma_trim_at(w, n + a, n + b);
        assert(w.subrange(n + a, n + b + 1) =~= sql.subrange(a, b + 1));
    } else {
        assert forall|j: int| 0 <= j < w.len() implies is_ws(w[j]) by {
            if j < n {
                assert(w[j] == before[j]);
            } else if j < n + sql.len() {
                assert(w[j] == sql[j - n]);
            } else {
                assert(w[j] == after[j - n - sql.len()]);
            }
        }
        lemma_trim_blank(sql);
        lemma_trim_blank(w);
    }
}

/// ASCII case changes no whitespace, no `;`, and no upper-cased letter.
proof fn lemma_case_char(c: char)
    ensures
        ascii_upper(ascii_lower(c)) == ascii_upper(c),
        is_ws(ascii_lower(c)) == is_ws(c),
        (ascii_lower(c) == ';') == (c == ';'),
        ascii_upper(ascii_upper(c)) == ascii_upper(c),
        is_ws(ascii_upper(c)) == is_ws(c),
        (ascii_upper(c) == ';') == (c == ';'),
{
}

/// Trimming gives the text from its first to its last non-whitespace
/// character.
proof fn lemma_trim_at(s: Seq<char>, a: int, b: int)
    requires
        is_first_solid(s, a),
        is_last_solid(s, b),
    ensures
        trim(s) == s.subrange(a, b + 1),
{
    let a2 = choose|i: int| is_first_solid(s, i);
    let b2 = choose|i: int| is_last_solid(s, i);
    assert(a2 == a) by {
        if a2 < a {
            assert(is_ws(s[a2]));
        } else if a2 > a {
            assert(is_ws(s[a]));
        }
    }
    assert(b2 == b) by {
        if b2 < b {
            assert(is_ws(s[b]));
        } else if b2 > b {
            assert(is_ws(s[b2]));
        }
    }
}

/// A text of whitespace only trims to nothing.
proof fn lemma_trim_blank(s: Seq<char>)
    requires
        forall|j: int| 0 <= j < s.len() ==> is_ws(s[j]),
    ensures
        trim(s) == Seq::<char>::empty(),
{
    assert(!exists|i: int| is_first_solid(s, i));
}

/// Two texts that agree, character by character, on whitespace, on `;` and
/// on upper-casing get the same answer.
proof fn lemma_same_verdict(s: Seq<char>, s2: Seq<char>)
    requires
        s2.len() == s.len(),
        forall|i: int| 0 <= i < s.len() ==> {
            let c = s[i];
            let d = #[trigger] s2[i];
            &&& ascii_upper(d) == ascii_upper(c)
            &&& is_ws(d) == is_ws(c)
            &&& (d == ';') == (c == ';')
        },
    ensures
        readonly_sql(s2) == readonly_sql(s),
{
    if exists|k: int| 0 <= k < s.len() && !is_ws(s[k]) {
        let k = choose|k: int| 0 <= k < s.len() && !is_ws(s[k]);
        assert(s2[k] == s2[k]);
        lemma_first_solid_exists(s, k);
        lemma_last_solid_exists(s, k);
        let a = choose|i: int| is_first_solid(s, i);
        let b = choose|i: int| is_last_solid(s, i);
        assert(s2[a] == s2[a] && s2[b] == s2[b]);
        assert(is_first_solid(s2, a)) by {
            assert forall|j: int| 0 <= j < a implies is_ws(s2[j]) by {
                assert(s2[j] == s2[j]);
            }
        }
        assert(is_last_solid(s2, b)) by {
            assert forall|j: int| b < j < s2.len() implies is_ws(s2[j]) by {
                assert(s2[j] == s2[j]);
            }
        }
        lemma_trim_at(s, a, b);
        lemma_trim_at(s2, a, b);
        let t = s.subrange(a, b + 1);
        let t2 = s2.subrange(a, b + 1);
        assert(upper(t2) =~= upper(t)) by {
            assert forall|i: int| 0 <= i < t.len() implies upper(t2)[i] == upper(t)[i] by {
                assert(t2[i] == s2[a + i]);
                assert(t[i] == s[a + i]);
            }
        }
        assert(t.contains(';') == t2.contains(';')) by {
            if t.contains(';') {
                let i = choose|i: int| 0 <= i < t.len() && t[i] == ';';
                assert(s2[a + i] == s2[a + i]);
                assert(t2[i] == ';');
            }
            if t2.contains(';') {
                let i = choose|i: int| 0 <= i < t2.len() && t2[i] == ';';
                assert(s2[a + i] == s2[a + i]);
                assert(t[i] == ';');
            }
        }
    } else {
        assert forall|j: int| 0 <= j < s2.len() implies is_ws(s2[j]) by {
            assert(s2[j] == s2[j]);
        }
        lemma_trim_blank(s);
        lemma_trim_blank(s2);
    }
}

/// Law: a plain SELECT is accepted, whatever its columns, tables and
/// values are called: a statement `SELECT ` followed by a text that does
/// not end in whitespace is read-only unless it holds `;`, or its
/// upper-cased text holds ` INTO ` or ` FOR UPDATE`. So only those exact
/// texts refuse it (a column `updated_at` or a table `into_log` does not).
pub proof fn law_plain_select_accepted(rest: Seq<char>)
    requires
        rest.len() > 0,
        !is_ws(rest.last()),
        !("SELECT "@ + rest).contains(';'),
        !has_infix(upper("SELECT "@ + rest), " INTO "@),
        !has_infix(upper("SELECT "@ + rest), " FOR UPDATE"@),
    ensures
        readonly_sql("SELECT "@ + rest),
{
    reveal_strlit("SELECT ");
    reveal_strlit(" INTO ");
    reveal_strlit(" FOR UPDATE");
    let s = "SELECT "@ + rest;
    assert(" INTO "@ =~= seq![' ', 'I', 'N', 'T', 'O', ' ']);
    assert(" FOR UPDATE"@ =~= seq![' ', 'F', 'O', 'R', ' ', 'U', 'P', 'D', 'A', 'T', 'E']);
    assert(s[0] == 'S');
    assert(is_first_solid(s, 0));
    assert(s[s.len() - 1] == rest.last());
    assert(is_last_solid(s, s.len() - 1));
    lemma_trim_at(s, 0, s.len() - 1);
    assert(trim(s) =~= s);
    let u = upper(s);
    assert(forall|i: int| 0 <= i < 7 ==> #[trigger] u[i] == s[i]);
    assert(is_first_ws(u, 6));
    let w = choose|i: int| is_first_ws(u, i);
    assert(w == 6) by {
        if w < 6 {
            assert(!is_ws(u[w]));
        } else if w > 6 {
            assert(!is_ws(u[6]));
        }
    }
    assert(first_word(u) =~= seq!['S', 'E', 'L', 'E', 'C', 'T']);
}

} // verus!
