//! Per-tenant token-bucket rate limiting.
//!
//! Each tenant owns a bucket that holds at most `burst_size` tokens and
//! refills at `max_requests_per_minute` tokens per minute. Tokens are counted
//! exactly, in units of one sixty-billionth of a token, so that one nanosecond
//! of refill at `r` requests per minute adds exactly `r` units.
use vstd::prelude::*;
use crate::assoc::{assoc_map, keys_unique, lemma_assoc_absent, lemma_assoc_index, lemma_assoc_push, lemma_assoc_update, lemma_unique_push};
use crate::types::TenantId;

verus! {

/// Units per token (nanoseconds per minute).
pub const TOKEN_UNIT: u128 = 60_000_000_000;

/// Capacity of a bucket, in units.
pub open spec fn capacity(burst_size: u64) -> int {
    burst_size * TOKEN_UNIT
}

/// Tokens and last refill instant after refilling at `now`: the elapsed
/// nanoseconds times the per-minute rate are added, capped at `cap`; a clock
/// that has not advanced changes nothing.
pub open spec fn refill(tokens: int, last: int, now: int, rpm: int, cap: int) -> (int, int) {
    if now > last {
        let t = tokens + (now - last) * rpm;
        (if t < cap { t } else { cap }, now)
    } else {
        (tokens, last)
    }
}

/// Refill, then take one token if a whole one is there:
/// (allowed, tokens, last refill).
pub open spec fn consume(tokens: int, last: int, now: int, rpm: int, cap: int) -> (bool, int, int) {
    let (t, l) = refill(tokens, last, now, rpm, cap);
    if t >= TOKEN_UNIT {
        (true, t - TOKEN_UNIT, l)
    } else {
        (false, t, l)
    }
}

/// The bucket a tenant starts from: full, last refilled now.
pub open spec fn fresh(now: int, cap: int) -> (int, int) {
    (cap, now)
}

/// The decision for a request of tenant `k` at `now` against the buckets
/// `b`: an unknown tenant starts from a fresh bucket; then one token is
/// taken if the refilled bucket has one. (allowed, the tenant's new bucket).
pub open spec fn admission(b: Map<Seq<char>, (int, int)>, k: Seq<char>, now: int, rpm: int, cap: int) -> (bool, (int, int)) {
    let start = if b.dom().contains(k) { b[k] } else { fresh(now, cap) };
    let c = consume(start.0, start.1, now, rpm, cap);
    (c.0, (c.1, c.2))
}

/// One tenant's bucket.
#[derive(Clone, Copy, Debug)]
struct Bucket {
    tokens: u128,
    last_refill: u64,
}

/// `std::time::Instant`, carried as an opaque value.
#[verifier::external_type_specification]
#[verifier::external_body]
pub struct ExInstant(std::time::Instant);

/// Calls `std::time::Instant::now`; nothing is stated of the reading.
#[verifier::external_body]
fn instant_now() -> (r: std::time::Instant) {
    std::time::Instant::now()
}

/// Calls `std::time::Instant::elapsed` and reads it in nanoseconds; the
/// value depends on the clock, so nothing is stated of it.
#[verifier::external_body]
fn nanos_since(origin: &std::time::Instant) -> (r: u128) {
    origin.elapsed().as_nanos()
}

/// Per-tenant rate limiter; a tenant whose bucket is empty is refused
/// (answered 429 by the gateway).
pub struct TenantRateLimiter {
    buckets: Vec<(TenantId, Bucket)>,
    max_requests_per_minute: u64,
    burst_size: u64,
    origin: std::time::Instant,
}

impl TenantRateLimiter {
    /// The entries as (tenant text, (tokens, last refill)).
    pub closed spec fn entries(&self) -> Seq<(Seq<char>, (int, int))> {
        self.buckets@.map_values(|e: (TenantId, Bucket)| (e.0@, (e.1.tokens as int, e.1.last_refill as int)))
    }

    /// Each known tenant's bucket: (tokens in units, last refill in
    /// nanoseconds since the limiter was made).
    pub closed spec fn buckets(&self) -> Map<Seq<char>, (int, int)> {
        assoc_map(self.entries())
    }

    /// The refill rate the limiter was made with.
    pub closed spec fn rpm(&self) -> u64 {
        self.max_requests_per_minute
    }

    /// The burst size the limiter was made with.
    pub closed spec fn burst(&self) -> u64 {
        self.burst_size
    }

    #[verifier::type_invariant]
    spec fn well_formed(&self) -> bool {
        &&& keys_unique(self.entries())
        &&& forall|i: int| 0 <= i < self.buckets@.len()
            ==> #[trigger] self.buckets@[i].1.tokens <= capacity(self.burst_size)
    }

    /// A limiter with no tenants yet.
    pub fn new(max_requests_per_minute: u64, burst_size: u64) -> (r: TenantRateLimiter)
        ensures
            r.buckets() == Map::<Seq<char>, (int, int)>::empty(),
            r.rpm() == max_requests_per_minute,
            r.burst() == burst_size,
    {
        let r = TenantRateLimiter {
            buckets: Vec::new(),
            max_requests_per_minute,
            burst_size,
            origin: instant_now(),
        };
        assert(r.entries() =~= Seq::empty());
        r
    }

    fn find(&self, tenant_id: &TenantId) -> (r: Option<usize>)
        ensures
            r matches Some(i) ==> i < self.buckets@.len() && self.entries()[i as int].0 == tenant_id@,
            r is None ==> forall|i: int| 0 <= i < self.entries().len() ==> self.entries()[i].0 != tenant_id@,
    {
        let mut i: usize = 0;
        while i < self.buckets.len()
            invariant
                i <= self.buckets@.len(),
                forall|j: int| 0 <= j < i ==> self.entries()[j].0 != tenant_id@,
            decreases self.buckets@.len() - i,
        {
            if self.buckets[i].0 == *tenant_id {
                return Some(i);
            }
            i = i + 1;
        }
        None
    }

    /// Decides a request of `tenant_id` at `now` (nanoseconds since the
    /// limiter was made): an unknown tenant first gets a full bucket
    /// refilled at `now`; then the bucket is refilled and one token taken if
    /// a whole one is there.
    pub fn is_allowed_at(&mut self, tenant_id: &TenantId, now: u64) -> (allowed: bool)
        ensures
            allowed == admission(old(self).buckets(), tenant_id@, now as int, old(self).rpm() as int, capacity(old(self).burst())).0,
            final(self).buckets() == old(self).buckets().insert(tenant_id@,
                admission(old(self).buckets(), tenant_id@, now as int, old(self).rpm() as int, capacity(old(self).burst())).1),
            forall|o: Seq<char>| o != tenant_id@ ==> (final(self).buckets().dom().contains(o)
                == old(self).buckets().dom().contains(o)),
            forall|o: Seq<char>| o != tenant_id@ && old(self).buckets().dom().contains(o)
                ==> final(self).buckets()[o] == old(self).buckets()[o],
            final(self).rpm() == old(self).rpm(),
            final(self).burst() == old(self).burst(),
    {
        proof { use_type_invariant(&*self); }
        let cap: u128 = self.burst_size as u128 * TOKEN_UNIT;
        let ghost old_entries = self.entries();
        let found = self.find(tenant_id);
        let mut v: Vec<(TenantId, Bucket)> = Vec::new();
        std::mem::swap(&mut v, &mut self.buckets);
        let ghost ev = v@.map_values(|e: (TenantId, Bucket)| (e.0@, (e.1.tokens as int, e.1.last_refill as int)));
        assert(ev == old_entries);
        let idx = match found {
            Some(i) => i,
            None => {
                proof {
                    lemma_assoc_absent(ev, tenant_id@);
                    lemma_unique_push(ev, tenant_id@, (cap as int, now as int));
                    lemma_assoc_push(ev, tenant_id@, (cap as int, now as int));
                }
                v.push((tenant_id.clone(), Bucket { tokens: cap, last_refill: now }));
                v.len() - 1
            },
        };
        let ghost pre = v@.map_values(|e: (TenantId, Bucket)| (e.0@, (e.1.tokens as int, e.1.last_refill as int)));
        assert(found is None ==> pre =~= ev.push((tenant_id@, (cap as int, now as int))));
        let b = v[idx].1;
        let mut tokens = b.tokens;
        let mut last = b.last_refill;
        if now > last {
            let elapsed = (now - last) as u128;
            let rpm = self.max_requests_per_minute as u128;
            assert(elapsed * rpm <= u64::MAX * u64::MAX) by (nonlinear_arith)
                requires
                    elapsed <= u64::MAX,
                    rpm <= u64::MAX,
            ;
            let gain = elapsed * rpm;
            tokens = if gain < cap - tokens { tokens + gain } else { cap };
            last = now;
        }
        let allowed = tokens >= TOKEN_UNIT;
        if allowed {
            tokens = tokens - TOKEN_UNIT;
        }
        let ghost k = pre[idx as int].0;
        proof {
            lemma_assoc_index(pre, idx as int);
            lemma_assoc_update(pre, idx as int, (tokens as int, last as int));
        }
        let key = v[idx].0.clone();
        v.set(idx, (key, Bucket { tokens, last_refill: last }));
        let ghost post = v@.map_values(|e: (TenantId, Bucket)| (e.0@, (e.1.tokens as int, e.1.last_refill as int)));
        assert(post =~= pre.update(idx as int, (k, (tokens as int, last as int))));
        self.buckets = v;
        allowed
    }

    /// Checks whether the tenant may make a request now (reading the clock),
    /// taking a token when it may.
    pub fn is_allowed(&mut self, tenant_id: &TenantId) -> (allowed: bool)
        ensures
            exists|now: u64| {
                let a = #[trigger] admission(old(self).buckets(), tenant_id@, now as int, old(self).rpm() as int, capacity(old(self).burst()));
                &&& allowed == a.0
                &&& final(self).buckets() == old(self).buckets().insert(tenant_id@, a.1)
            },
            final(self).rpm() == old(self).rpm(),
            final(self).burst() == old(self).burst(),
    {
        let raw = nanos_since(&self.origin);
        let now: u64 = if raw > u64::MAX as u128 { u64::MAX } else { raw as u64 };
        self.is_allowed_at(tenant_id, now)
    }

    /// Whole tokens left for a tenant (for the 429 response headers); `None`
    /// for a tenant never seen. The bucket is not refilled by asking.
    pub fn remaining(&self, tenant_id: &TenantId) -> (r: Option<u64>)
        ensures
            r is Some <==> self.buckets().dom().contains(tenant_id@),
            r matches Some(n) ==> n == self.buckets()[tenant_id@].0 / (TOKEN_UNIT as int),
            r matches Some(n) ==> n <= self.burst(),
    {
        proof { use_type_invariant(&*self); }
        match self.find(tenant_id) {
            Some(i) => {
                proof { lemma_assoc_index(self.entries(), i as int); }
                let t = self.buckets[i].1.tokens;
                assert(t / TOKEN_UNIT <= self.burst_size) by (nonlinear_arith)
                    requires
                        t <= self.burst_size * TOKEN_UNIT,
                        TOKEN_UNIT == 60_000_000_000u128,
                ;
                Some((t / TOKEN_UNIT) as u64)
            },
            None => {
                proof { lemma_assoc_absent(self.entries(), tenant_id@); }
                None
            },
        }
    }
}

/// Law: at a single instant a fresh bucket of burst `b` admits exactly `b`
/// requests: after `k < b` admissions the next is admitted, after `b` it is
/// refused.
pub proof fn law_burst_then_refuse(burst: u64, rpm: u64, now: int, k: int)
    requires
        0 <= k <= burst,
    ensures
        consume(capacity(burst) - k * TOKEN_UNIT, now, now, rpm as int, capacity(burst))
            == if k < burst {
                (true, capacity(burst) - (k + 1) * TOKEN_UNIT, now)
            } else {
                (false, 0int, now)
            },
{
    assert(capacity(burst) - k * TOKEN_UNIT == (burst - k) * TOKEN_UNIT) by (nonlinear_arith);
    assert(capacity(burst) - (k + 1) * TOKEN_UNIT == (burst - k - 1) * TOKEN_UNIT) by (nonlinear_arith);
    if k < burst {
        assert((burst - k) * TOKEN_UNIT >= TOKEN_UNIT) by (nonlinear_arith)
            requires
                burst - k >= 1,
        ;
    }
}

/// Law: a bucket never holds more than its capacity, and taking from it
/// never leaves a negative count.
pub proof fn law_within_capacity(tokens: int, last: int, now: int, rpm: int, cap: int)
    requires
        0 <= tokens <= cap,
        rpm >= 0,
    ensures
        0 <= consume(tokens, last, now, rpm, cap).1 <= cap,
{
    if now > last {
        assert((now - last) * rpm >= 0) by (nonlinear_arith)
            requires
                now - last > 0,
                rpm >= 0,
        ;
    }
}

/// Law: however empty the bucket, once a minute's worth of nanoseconds per
/// token rate has passed (`now - last >= TOKEN_UNIT`), a request is admitted
/// again, provided the bucket can hold a token and the rate is positive.
pub proof fn law_refill_readmits(tokens: int, last: int, now: int, rpm: int, cap: int)
    requires
        tokens >= 0,
        cap >= TOKEN_UNIT,
        rpm >= 1,
        now - last >= TOKEN_UNIT,
    ensures
        consume(tokens, last, now, rpm, cap).0,
{
    assert((now - last) * rpm >= TOKEN_UNIT) by (nonlinear_arith)
        requires
            now - last >= TOKEN_UNIT,
            rpm >= 1,
    ;
}

/// The buckets after a sequence of requests (tenant, instant), and the
/// answer to each request in order.
pub open spec fn run_calls(b: Map<Seq<char>, (int, int)>, calls: Seq<(Seq<char>, int)>, rpm: int, cap: int)
    -> (Map<Seq<char>, (int, int)>, Seq<bool>)
    decreases calls.len(),
{
    if calls.len() == 0 {
        (b, Seq::empty())
    } else {
        let prev = run_calls(b, calls.drop_last(), rpm, cap);
        let a = admission(prev.0, calls.last().0, calls.last().1, rpm, cap);
        (prev.0.insert(calls.last().0, a.1), prev.1.push(a.0))
    }
}

/// The instants of tenant `x`'s requests, in order.
pub open spec fn calls_of(calls: Seq<(Seq<char>, int)>, x: Seq<char>) -> Seq<int>
    decreases calls.len(),
{
    if calls.len() == 0 {
        Seq::empty()
    } else if calls.last().0 == x {
        calls_of(calls.drop_last(), x).push(calls.last().1)
    } else {
        calls_of(calls.drop_last(), x)
    }
}

/// The answers to tenant `x`'s requests, in order.
pub open spec fn answers_of(calls: Seq<(Seq<char>, int)>, answers: Seq<bool>, x: Seq<char>) -> Seq<bool>
    decreases calls.len(),
{
    if calls.len() == 0 || answers.len() == 0 {
        Seq::empty()
    } else if calls.last().0 == x {
        answers_of(calls.drop_last(), answers.drop_last(), x).push(answers.last())
    } else {
        answers_of(calls.drop_last(), answers.drop_last(), x)
    }
}

/// Tenant `x`'s bucket, if it has one.
pub open spec fn bucket_of(b: Map<Seq<char>, (int, int)>, x: Seq<char>) -> Option<(int, int)> {
    if b.dom().contains(x) { Some(b[x]) } else { None }
}

/// One tenant alone: its bucket and its answers after requests at the
/// given instants, starting from `start` (a fresh bucket when `None`).
pub open spec fn tenant_run(start: Option<(int, int)>, nows: Seq<int>, rpm: int, cap: int) -> (Option<(int, int)>, Seq<bool>)
    decreases nows.len(),
{
    if nows.len() == 0 {
        (start, Seq::empty())
    } else {
        let prev = tenant_run(start, nows.drop_last(), rpm, cap);
        let now = nows.last();
        let s0 = match prev.0 { Some(v) => v, None => fresh(now, cap) };
        let c = consume(s0.0, s0.1, now, rpm, cap);
        (Some((c.1, c.2)), prev.1.push(c.0))
    }
}

/// Law: tenants are independent. Whatever other tenants' requests are
/// interleaved with them, a tenant's answers and its bucket are those it
/// would have alone, from its own bucket and its own requests.
pub proof fn law_tenant_independence(
    b: Map<Seq<char>, (int, int)>,
    calls: Seq<(Seq<char>, int)>,
    x: Seq<char>,
    rpm: int,
    cap: int,
)
    ensures
        run_calls(b, calls, rpm, cap).1.len() == calls.len(),
        answers_of(calls, run_calls(b, calls, rpm, cap).1, x)
            == tenant_run(bucket_of(b, x), calls_of(calls, x), rpm, cap).1,
        bucket_of(run_calls(b, calls, rpm, cap).0, x)
            == tenant_run(bucket_of(b, x), calls_of(calls, x), rpm, cap).0,
    decreases calls.len(),
{
    if calls.len() > 0 {
        let pre = calls.drop_last();
        law_tenant_independence(b, pre, x, rpm, cap);
        let prev = run_calls(b, pre, rpm, cap);
        let r = run_calls(b, calls, rpm, cap);
        assert(r.1.drop_last() =~= prev.1);
        if calls.last().0 == x {
            assert(calls_of(calls, x).drop_last() =~= calls_of(pre, x));
        }
    }
}

/// The number of admitted requests among the answers.
pub open spec fn admitted_count(answers: Seq<bool>) -> int
    decreases answers.len(),
{
    if answers.len() == 0 {
        0
    } else {
        admitted_count(answers.drop_last()) + if answers.last() { 1int } else { 0int }
    }
}

/// Law: a request arriving after the last refill moves the refill instant
/// to its own arrival, whether it is admitted or refused, so no span of
/// time is refilled twice.
pub proof fn law_refill_moves_clock(tokens: int, last: int, now: int, rpm: int, cap: int)
    requires
        now > last,
    ensures
        consume(tokens, last, now, rpm, cap).2 == now,
{
}

/// Law: over any span of time a tenant is admitted at most what a fresh
/// bucket holds plus what the rate refills: for requests at instants
/// `t0 <= ... <= tn` (nanoseconds), starting from a fresh bucket, the
/// admitted requests, counted in token units, are at most the capacity plus
/// `rpm` units per nanosecond elapsed; that is, at most
/// `burst + rpm * (tn - t0) / 60e9` requests.
pub proof fn law_admissions_bounded(nows: Seq<int>, rpm: int, cap: int)
    requires
        nows.len() > 0,
        forall|i: int, j: int| 0 <= i <= j < nows.len() ==> nows[i] <= nows[j],
        rpm >= 0,
        cap >= 0,
    ensures
        admitted_count(tenant_run(None, nows, rpm, cap).1) * TOKEN_UNIT <= cap + rpm * (nows.last() - nows[0]),
{
    lemma_run_bound(nows, rpm, cap);
    let r = tenant_run(None, nows, rpm, cap);
    let st = r.0->0;
    let a = admitted_count(r.1);
    assert(rpm * (st.1 - nows[0]) <= rpm * (nows.last() - nows[0])) by (nonlinear_arith)
        requires
            rpm >= 0,
            st.1 <= nows.last(),
    ;
}

/// The invariant behind `law_admissions_bounded`: the bucket's tokens plus
/// the admitted units never exceed the capacity plus the refill up to the
/// last refill instant, which lies between the first and the last request.
proof fn lemma_run_bound(nows: Seq<int>, rpm: int, cap: int)
    requires
        nows.len() > 0,
        forall|i: int, j: int| 0 <= i <= j < nows.len() ==> nows[i] <= nows[j],
        rpm >= 0,
        cap >= 0,
    ensures
        tenant_run(None, nows, rpm, cap).0 is Some,
        ({
            let r = tenant_run(None, nows, rpm, cap);
            let st = r.0->0;
            &&& 0 <= st.0
            &&& nows[0] <= st.1 <= nows.last()
            &&& st.0 + admitted_count(r.1) * TOKEN_UNIT <= cap + rpm * (st.1 - nows[0])
        }),
    decreases nows.len(),
{
    let r = tenant_run(None, nows, rpm, cap);
    let now = nows.last();
    if nows.len() == 1 {
        let e = tenant_run(None, nows.drop_last(), rpm, cap);
        assert(e.1 =~= Seq::<bool>::empty());
        assert(r.1 =~= e.1.push(r.1.last()));
        assert(r.1.drop_last() =~= e.1);
        assert(rpm * (now - nows[0]) == 0) by (nonlinear_arith)
            requires now == nows[0];
        assert(e.0 is None);
        let c = consume(cap, now, now, rpm, cap);
        assert(r.0 == Some((c.1, c.2)));
        assert(r.1 == e.1.push(c.0));
        assert(admitted_count(e.1) == 0);
        assert(r.1.last() == c.0);
        assert(admitted_count(r.1) == if c.0 { 1int } else { 0int });
        if cap >= TOKEN_UNIT {
            assert(c == (true, cap - TOKEN_UNIT, now));
        } else {
            assert(c == (false, cap, now));
        }
    } else {
        let pre = nows.drop_last();
        assert forall|i: int, j: int| 0 <= i <= j < pre.len() implies pre[i] <= pre[j] by {
            assert(pre[i] == nows[i] && pre[j] == nows[j]);
        }
        lemma_run_bound(pre, rpm, cap);
        let prev = tenant_run(None, pre, rpm, cap);
        let (tok, last) = prev.0->0;
        let t0 = nows[0];
        assert(pre[0] == t0);
        assert(pre.last() == nows[nows.len() - 2]);
        assert(last <= now);
        let c = consume(tok, last, now, rpm, cap);
        assert(r.1 == prev.1.push(c.0));
        assert(r.1.drop_last() =~= prev.1);
        let a = admitted_count(prev.1);
        assert(admitted_count(r.1) == a + if c.0 { 1int } else { 0int });
        let f = refill(tok, last, now, rpm, cap);
        if now > last {
            assert((now - last) * rpm >= 0) by (nonlinear_arith)
                requires now - last > 0, rpm >= 0;
            assert(rpm * (last - t0) + (now - last) * rpm == rpm * (now - t0)) by (nonlinear_arith);
            assert(f.1 == now);
            assert(0 <= f.0 <= tok + (now - last) * rpm);
            assert(f.0 + a * TOKEN_UNIT <= cap + rpm * (now - t0));
        } else {
            assert(f == (tok, last));
        }
        assert(0 <= f.0);
        assert(f.0 + a * TOKEN_UNIT <= cap + rpm * (f.1 - t0));
        if f.0 >= TOKEN_UNIT {
            assert(c == (true, f.0 - TOKEN_UNIT, f.1));
            assert((f.0 - TOKEN_UNIT) + (a + 1) * TOKEN_UNIT == f.0 + a * TOKEN_UNIT);
        } else {
            assert(c == (false, f.0, f.1));
        }
        assert(r.0 == Some((c.1, c.2)));
    }
}

} // verus!