//! Development hot-reload: which file changes trigger which action, and the
//! debounce window that batches bursts of file events.
use vstd::prelude::*;
use crate::text::{chars_of, contains, ends_with, has_infix, has_suffix};

verus! {

/// Action triggered by file change events.
#[derive(Debug, Clone, Copy, PartialEq, Eq, Hash, Structural)]
pub enum DevAction {
    /// Reload configuration from file (e.g. `.env` change).
    ReloadConfig,
    /// Recycle the worker pool (e.g. `config/*.php` change).
    RecycleWorkers,
    /// Invalidate OPcache and recycle workers (e.g. app code change).
    InvalidateOpCache,
    /// Clear the view cache (e.g. Blade template change).
    ClearViewCache,
}

/// A path under a directory that is never watched: `vendor`, `node_modules`,
/// `.git`, `storage` or `bootstrap/cache` occurs in it.
pub open spec fn ignored_path(p: Seq<char>) -> bool {
    ||| has_infix(p, seq!['v', 'e', 'n', 'd', 'o', 'r'])
    ||| has_infix(p, seq!['n', 'o', 'd', 'e', '_', 'm', 'o', 'd', 'u', 'l', 'e', 's'])
    ||| has_infix(p, seq!['.', 'g', 'i', 't'])
    ||| has_infix(p, seq!['s', 't', 'o', 'r', 'a', 'g', 'e'])
    ||| has_infix(p, seq!['b', 'o', 'o', 't', 's', 't', 'r', 'a', 'p', '/', 'c', 'a', 'c', 'h', 'e'])
}

/// The action a changed path (with `/` separators) calls for.
pub open spec fn action_for(p: Seq<char>) -> Option<DevAction> {
    let php = seq!['.', 'p', 'h', 'p'];
    if ignored_path(p) {
        None
    } else if has_suffix(p, seq!['.', 'e', 'n', 'v']) {
        Some(DevAction::ReloadConfig)
    } else if has_infix(p, seq!['c', 'o', 'n', 'f', 'i', 'g', '/']) && has_suffix(p, php) {
        Some(DevAction::RecycleWorkers)
    } else if has_infix(p, seq!['r', 'e', 's', 'o', 'u', 'r', 'c', 'e', 's', '/', 'v', 'i', 'e', 'w', 's', '/'])
        && has_suffix(p, seq!['.', 'b', 'l', 'a', 'd', 'e', '.', 'p', 'h', 'p']) {
        Some(DevAction::ClearViewCache)
    } else if has_infix(p, seq!['/', 'a', 'p', 'p', '/']) && has_suffix(p, php) {
        Some(DevAction::InvalidateOpCache)
    } else {
        None
    }
}

/// The directories under the application root that development mode
/// watches (those that exist), in this order.
pub fn watch_patterns() -> (v: Vec<&'static str>)
    ensures
        v@.len() == 5,
        v@[0]@ == "app"@,
        v@[1]@ == "config"@,
        v@[2]@ == "routes"@,
        v@[3]@ == "resources/views"@,
        v@[4]@ == ".env"@,
{
    vec!["app", "config", "routes", "resources/views", ".env"]
}

/// `\` replaced by `/`.
pub open spec fn slashes(p: Seq<char>) -> Seq<char> {
    p.map_values(|c: char| if c == '\\' { '/' } else { c })
}

/// The action for a path as the watcher reports it (separators normalised).
pub open spec fn action_for_event_path(p: Seq<char>) -> Option<DevAction> {
    action_for(slashes(p))
}

/// `a` is called for by some path of the list.
pub open spec fn called_for(paths: Seq<Seq<char>>, a: DevAction) -> bool {
    exists|i: int| 0 <= i < paths.len() && action_for_event_path(paths[i]) == Some(a)
}

/// Replaces `\` by `/`.
pub fn normalize_separators(p: &str) -> (r: Vec<char>)
    ensures
        r@ == slashes(p@),
{
    let s = chars_of(p);
    let mut r: Vec<char> = Vec::new();
    let mut i: usize = 0;
    while i < s.len()
        invariant
            i <= s.len(),
            r@ == slashes(s@.take(i as int)),
        decreases s.len() - i,
    {
        let c = s[i];
        r.push(if c == '\\' { '/' } else { c });
        assert(slashes(s@.take(i + 1)) =~= slashes(s@.take(i as int)).push(if c == '\\' { '/' } else { c }));
        i = i + 1;
    }
    assert(s@.take(s.len() as int) =~= s@);
    r
}

/// The action a changed path (already using `/` separators) calls for.
pub fn action_for_path(path: &Vec<char>) -> (a: Option<DevAction>)
    ensures
        a == action_for(path@),
{
    if contains(path, &vec!['v', 'e', 'n', 'd', 'o', 'r'])
        || contains(path, &vec!['n', 'o', 'd', 'e', '_', 'm', 'o', 'd', 'u', 'l', 'e', 's'])
        || contains(path, &vec!['.', 'g', 'i', 't'])
        || contains(path, &vec!['s', 't', 'o', 'r', 'a', 'g', 'e'])
        || contains(path, &vec!['b', 'o', 'o', 't', 's', 't', 'r', 'a', 'p', '/', 'c', 'a', 'c', 'h', 'e']) {
        return None;
    }
    let php = vec!['.', 'p', 'h', 'p'];
    if ends_with(path, &vec!['.', 'e', 'n', 'v']) {
        Some(DevAction::ReloadConfig)
    } else if contains(path, &vec!['c', 'o', 'n', 'f', 'i', 'g', '/']) && ends_with(path, &php) {
        Some(DevAction::RecycleWorkers)
    } else if contains(path, &vec!['r', 'e', 's', 'o', 'u', 'r', 'c', 'e', 's', '/', 'v', 'i', 'e', 'w', 's', '/'])
        && ends_with(path, &vec!['.', 'b', 'l', 'a', 'd', 'e', '.', 'p', 'h', 'p']) {
        Some(DevAction::ClearViewCache)
    } else if contains(path, &vec!['/', 'a', 'p', 'p', '/']) && ends_with(path, &php) {
        Some(DevAction::InvalidateOpCache)
    } else {
        None
    }
}

/// The distinct actions a batch of changed paths calls for, each once, in
/// the order of their first cause.
pub fn actions_for_paths(paths: &Vec<String>) -> (acts: Vec<DevAction>)
    ensures
        forall|a: DevAction| acts@.contains(a) <==> called_for(paths@.map_values(|p: String| p@), a),
        forall|i: int, j: int| 0 <= i < j < acts@.len() ==> acts@[i] != acts@[j],
{
    let ghost ps = paths@.map_values(|p: String| p@);
    let mut acts: Vec<DevAction> = Vec::new();
    let mut i: usize = 0;
    while i < paths.len()
        invariant
            i <= paths.len(),
            ps == paths@.map_values(|p: String| p@),
            forall|a: DevAction| acts@.contains(a) <==> called_for(ps.take(i as int), a),
            forall|x: int, y: int| 0 <= x < y < acts@.len() ==> acts@[x] != acts@[y],
        decreases paths.len() - i,
    {
        let norm = normalize_separators(paths[i].as_str());
        let found = action_for_path(&norm);
        let ghost before = acts@;
        assert(forall|a: DevAction| before.contains(a) <==> called_for(ps.take(i as int), a));
        match found {
            Some(a) => {
                let mut seen = false;
                let mut k: usize = 0;
                while k < acts.len()
                    invariant
                        k <= acts.len(),
                        seen == exists|x: int| 0 <= x < k && acts@[x] == a,
                    decreases acts.len() - k,
                {
                    if acts[k] == a {
                        seen = true;
                    }
                    k = k + 1;
                }
                if !seen {
                    acts.push(a);
                }
            },
            None => {},
        }
        assert(ps[i as int] == paths@[i as int]@);
        assert(action_for_event_path(ps[i as int]) == found);
        assert forall|a: DevAction| acts@.contains(a) <==> (before.contains(a) || found == Some(a)) by {
            if before.contains(a) {
                let w = choose|w: int| 0 <= w < before.len() && before[w] == a;
                assert(acts@[w] == a);
            }
            if found == Some(a) && !before.contains(a) {
                assert(acts@[acts@.len() - 1] == a);
            }
            if acts@.contains(a) && !before.contains(a) {
                let w = choose|w: int| 0 <= w < acts@.len() && acts@[w] == a;
                if w < before.len() {
                    assert(before[w] == a);
                }
            }
        }
        assert forall|a: DevAction| called_for(ps.take(i + 1), a) <==> (called_for(ps.take(i as int), a) || found == Some(a)) by {
            let t = ps.take(i + 1);
            assert(t[i as int] == ps[i as int]);
            if called_for(t, a) {
                let w = choose|w: int| 0 <= w < t.len() && action_for_event_path(t[w]) == Some(a);
                if w < i {
                    assert(ps.take(i as int)[w] == t[w]);
                }
            }
            if called_for(ps.take(i as int), a) {
                let w = choose|w: int| 0 <= w < i && action_for_event_path(ps.take(i as int)[w]) == Some(a);
                assert(t[w] == ps.take(i as int)[w]);
            }
        }
        assert forall|a: DevAction| acts@.contains(a) <==> called_for(ps.take(i + 1), a) by {
            assert(before.contains(a) <==> called_for(ps.take(i as int), a));
            assert(acts@.contains(a) <==> (before.contains(a) || found == Some(a)));
            assert(called_for(ps.take(i + 1), a) <==> (called_for(ps.take(i as int), a) || found == Some(a)));
        }
        i = i + 1;
    }
    assert(ps.take(paths.len() as int) =~= ps);
    acts
}

/// The state of a debounce window, as values: the paths batched so far,
/// whether an event awaits flushing, and when the batch is due.
pub struct Batching {
    pub pending: Seq<Seq<char>>,
    pub waiting: bool,
    pub due: Option<u64>,
}

/// Nothing batched.
pub open spec fn idle() -> Batching {
    Batching { pending: Seq::empty(), waiting: false, due: None }
}

/// What the debounce window is told: an event with its paths at an instant,
/// the timer firing at an instant, or the event source closing.
pub enum BatchInput {
    Event(Seq<Seq<char>>, u64),
    Timer(u64),
    Close,
}

/// One window after `now`, saturating at the largest instant.
pub open spec fn deadline_after(now: u64, window: u64) -> u64 {
    if now + window <= u64::MAX { (now + window) as u64 } else { u64::MAX }
}

/// One input's effect: the next state, and the batch released, if any. An
/// event joins the batch and moves the deadline one window past it; the
/// timer releases a waiting batch once its deadline has come; closing
/// releases a waiting batch at once.
pub open spec fn batch_step(st: Batching, input: BatchInput, window: u64) -> (Batching, Option<Seq<Seq<char>>>) {
    match input {
        BatchInput::Event(paths, now) => (
            Batching { pending: st.pending + paths, waiting: true, due: Some(deadline_after(now, window)) },
            None,
        ),
        BatchInput::Timer(now) => if st.waiting && st.due is Some && now >= st.due->0 {
            (idle(), Some(st.pending))
        } else {
            (st, None)
        },
        BatchInput::Close => if st.waiting { (idle(), Some(st.pending)) } else { (idle(), None) },
    }
}

/// The state after a sequence of inputs, and the batches released in order.
pub open spec fn batch_run(st: Batching, inputs: Seq<BatchInput>, window: u64) -> (Batching, Seq<Seq<Seq<char>>>)
    decreases inputs.len(),
{
    if inputs.len() == 0 {
        (st, Seq::empty())
    } else {
        let prev = batch_run(st, inputs.drop_last(), window);
        let r = batch_step(prev.0, inputs.last(), window);
        match r.1 {
            Some(b) => (r.0, prev.1.push(b)),
            None => (r.0, prev.1),
        }
    }
}

/// The batches one after another.
pub open spec fn concat_batches(bs: Seq<Seq<Seq<char>>>) -> Seq<Seq<char>>
    decreases bs.len(),
{
    if bs.len() == 0 { Seq::empty() } else { concat_batches(bs.drop_last()) + bs.last() }
}

/// The paths of all events among the inputs, in order.
pub open spec fn event_paths(inputs: Seq<BatchInput>) -> Seq<Seq<char>>
    decreases inputs.len(),
{
    if inputs.len() == 0 {
        Seq::empty()
    } else {
        match inputs.last() {
            BatchInput::Event(paths, _) => event_paths(inputs.drop_last()) + paths,
            _ => event_paths(inputs.drop_last()),
        }
    }
}

/// The instant of the last event among the inputs.
pub open spec fn last_event_at(inputs: Seq<BatchInput>) -> Option<u64>
    decreases inputs.len(),
{
    if inputs.len() == 0 {
        None
    } else {
        match inputs.last() {
            BatchInput::Event(_, now) => Some(now),
            _ => last_event_at(inputs.drop_last()),
        }
    }
}

/// A consistent state: nothing batched unless waiting, and a deadline
/// exactly when waiting.
pub open spec fn consistent(st: Batching) -> bool {
    &&& !st.waiting ==> st.pending.len() == 0 && st.due is None
    &&& st.waiting ==> st.due is Some
}

/// Law: no event is lost or handled twice. The released batches, followed
/// by what is still batched, are exactly what was batched at the start
/// followed by the paths of every event, in order; once the source has
/// closed, nothing remains batched.
pub proof fn law_every_event_in_one_batch(st: Batching, inputs: Seq<BatchInput>, window: u64)
    requires
        consistent(st),
    ensures
        concat_batches(batch_run(st, inputs, window).1) + batch_run(st, inputs, window).0.pending
            == st.pending + event_paths(inputs),
        consistent(batch_run(st, inputs, window).0),
        inputs.len() > 0 && inputs.last() is Close ==> batch_run(st, inputs, window).0.pending.len() == 0,
    decreases inputs.len(),
{
    if inputs.len() > 0 {
        let pre = inputs.drop_last();
        law_every_event_in_one_batch(st, pre, window);
        let prev = batch_run(st, pre, window);
        let r = batch_step(prev.0, inputs.last(), window);
        match inputs.last() {
            BatchInput::Event(paths, _) => {
                assert(concat_batches(prev.1) + (prev.0.pending + paths)
                    =~= (concat_batches(prev.1) + prev.0.pending) + paths);
                assert(st.pending + event_paths(inputs) =~= (st.pending + event_paths(pre)) + paths);
            },
            _ => {
                assert(event_paths(inputs) == event_paths(pre));
                match r.1 {
                    Some(b) => {
                        let bs = prev.1.push(b);
                        assert(bs.drop_last() =~= prev.1);
                        assert(concat_batches(bs) + Seq::<Seq<char>>::empty() =~= concat_batches(prev.1) + prev.0.pending);
                    },
                    None => {
                        if !prev.0.waiting {
                            assert(prev.0.pending =~= Seq::<Seq<char>>::empty());
                        }
                    },
                }
            },
        }
    }
}

/// Law: no batch is released before the quiet period has passed. Starting
/// from nothing batched, whenever the timer releases a batch, an event came
/// before it and the timer fired at least one window (saturating) after the
/// last such event; while nothing waits, nothing is released.
pub proof fn law_quiet_period(inputs: Seq<BatchInput>, now: u64, window: u64)
    ensures
        batch_step(batch_run(idle(), inputs, window).0, BatchInput::Timer(now), window).1 is Some ==> {
            &&& last_event_at(inputs) is Some
            &&& now >= deadline_after(last_event_at(inputs)->0, window)
        },
        !batch_run(idle(), inputs, window).0.waiting ==>
            batch_step(batch_run(idle(), inputs, window).0, BatchInput::Timer(now), window).1 is None,
{
    lemma_due_tracks_last_event(inputs, window);
}

/// While a batch waits, it is due one window after the last event.
proof fn lemma_due_tracks_last_event(inputs: Seq<BatchInput>, window: u64)
    ensures
        batch_run(idle(), inputs, window).0.waiting ==> {
            &&& last_event_at(inputs) is Some
            &&& batch_run(idle(), inputs, window).0.due == Some(deadline_after(last_event_at(inputs)->0, window))
        },
    decreases inputs.len(),
{
    if inputs.len() > 0 {
        lemma_due_tracks_last_event(inputs.drop_last(), window);
    }
}

/// The debounce window between file events and the actions they trigger:
/// events are batched until no new event has arrived for `window`
/// milliseconds, then the batch is turned into actions once.
pub struct Debouncer {
    pending: Vec<String>,
    has_pending: bool,
    deadline: Option<u64>,
    window: u64,
}

impl Debouncer {
    /// The paths of the events batched since the last flush.
    pub closed spec fn pending(&self) -> Seq<Seq<char>> {
        self.pending@.map_values(|p: String| p@)
    }

    /// Whether an event (possibly with no path) awaits flushing.
    pub closed spec fn waiting(&self) -> bool {
        self.has_pending
    }

    /// When the batch is due, if one is waiting.
    pub closed spec fn due(&self) -> Option<u64> {
        self.deadline
    }

    /// The debounce window in milliseconds.
    pub closed spec fn window_ms(&self) -> u64 {
        self.window
    }

    /// The window's state as values.
    pub open spec fn batching(&self) -> Batching {
        Batching { pending: self.pending(), waiting: self.waiting(), due: self.due() }
    }

    #[verifier::type_invariant]
    spec fn type_inv(&self) -> bool {
        &&& !self.has_pending ==> self.pending@.len() == 0 && self.deadline is None
        &&& self.has_pending ==> self.deadline is Some
    }

    /// A debouncer with nothing waiting.
    pub fn new(window: u64) -> (d: Debouncer)
        ensures
            d.batching() == idle(),
            d.window_ms() == window,
    {
        let d = Debouncer { pending: Vec::new(), has_pending: false, deadline: None, window };
        assert(d.pending() =~= Seq::<Seq<char>>::empty());
        d
    }

    /// When to wake next: at the batch's deadline, or one window from now
    /// when nothing waits (saturating at the largest instant).
    pub fn wake_at(&self, now: u64) -> (t: u64)
        ensures
            t == match self.due() {
                Some(d) => d,
                None => deadline_after(now, self.window_ms()),
            },
    {
        match self.deadline {
            Some(d) => d,
            None => now.saturating_add(self.window),
        }
    }

    /// An event with the given paths arrived at `now`: it joins the batch and
    /// the deadline moves to one window after `now` (saturating).
    pub fn on_event(&mut self, paths: Vec<String>, now: u64)
        ensures
            final(self).batching() == batch_step(
                old(self).batching(),
                BatchInput::Event(paths@.map_values(|p: String| p@), now),
                old(self).window_ms(),
            ).0,
            final(self).window_ms() == old(self).window_ms(),
    {
        proof { use_type_invariant(&*self); }
        let mut batch: Vec<String> = Vec::new();
        std::mem::swap(&mut batch, &mut self.pending);
        let ghost start = batch@;
        let mut i: usize = 0;
        while i < paths.len()
            invariant
                i <= paths.len(),
                batch@ == start + paths@.take(i as int),
            decreases paths.len() - i,
        {
            let p = paths[i].clone();
            batch.push(p);
            assert(start + paths@.take(i + 1) =~= (start + paths@.take(i as int)).push(paths@[i as int]));
            i = i + 1;
        }
        assert(paths@.take(paths.len() as int) =~= paths@);
        let due = now.saturating_add(self.window);
        let window = self.window;
        *self = Debouncer { pending: batch, has_pending: true, deadline: Some(due), window };
        assert(self.pending@.map_values(|p: String| p@) =~= start.map_values(|p: String| p@) + paths@.map_values(|p: String| p@));
    }

    /// The timer fired at `now`: a waiting batch whose deadline has come is
    /// turned into its distinct actions and cleared; otherwise nothing
    /// happens.
    pub fn on_timer(&mut self, now: u64) -> (acts: Vec<DevAction>)
        ensures
            final(self).batching() == batch_step(old(self).batching(), BatchInput::Timer(now), old(self).window_ms()).0,
            match batch_step(old(self).batching(), BatchInput::Timer(now), old(self).window_ms()).1 {
                Some(b) => released(b, acts@),
                None => acts@.len() == 0,
            },
            final(self).window_ms() == old(self).window_ms(),
    {
        proof { use_type_invariant(&*self); }
        if !self.has_pending {
            return Vec::new();
        }
        match self.deadline {
            Some(d) => if now >= d { self.flush() } else { Vec::new() },
            None => Vec::new(),
        }
    }

    /// The event source closed: a waiting batch is flushed at once.
    pub fn on_close(&mut self) -> (acts: Vec<DevAction>)
        ensures
            final(self).batching() == batch_step(old(self).batching(), BatchInput::Close, old(self).window_ms()).0,
            match batch_step(old(self).batching(), BatchInput::Close, old(self).window_ms()).1 {
                Some(b) => released(b, acts@),
                None => acts@.len() == 0,
            },
            final(self).window_ms() == old(self).window_ms(),
    {
        proof { use_type_invariant(&*self); }
        if !self.has_pending {
            assert(self.pending() =~= Seq::<Seq<char>>::empty());
            return Vec::new();
        }
        self.flush()
    }

    fn flush(&mut self) -> (acts: Vec<DevAction>)
        ensures
            released(old(self).pending(), acts@),
            final(self).batching() == idle(),
            final(self).window_ms() == old(self).window_ms(),
    {
        proof { use_type_invariant(&*self); }
        let mut batch: Vec<String> = Vec::new();
        std::mem::swap(&mut batch, &mut self.pending);
        let window = self.window;
        *self = Debouncer { pending: Vec::new(), has_pending: false, deadline: None, window };
        assert(self.pending() =~= Seq::<Seq<char>>::empty());
        actions_for_paths(&batch)
    }
}

/// The actions sent for a released batch: each action some path of the
/// batch calls for, each once.
pub open spec fn released(batch: Seq<Seq<char>>, acts: Seq<DevAction>) -> bool {
    &&& forall|a: DevAction| acts.contains(a) <==> called_for(batch, a)
    &&& forall|i: int, j: int| 0 <= i < j < acts.len() ==> acts[i] != acts[j]
}

/// Law: a path is never acted on when it lies under `vendor`,
/// `node_modules`, `.git`, `storage` or `bootstrap/cache` (it holds one of
/// these texts).
pub proof fn law_ignored_dirs(p: Seq<char>)
    requires
        has_infix(p, "vendor"@) || has_infix(p, "node_modules"@) || has_infix(p, ".git"@)
            || has_infix(p, "storage"@) || has_infix(p, "bootstrap/cache"@),
    ensures
        action_for(p) is None,
{
    reveal_strlit("vendor");
    reveal_strlit("node_modules");
    reveal_strlit(".git");
    reveal_strlit("storage");
    reveal_strlit("bootstrap/cache");
    assert("vendor"@ =~= seq!['v', 'e', 'n', 'd', 'o', 'r']);
    assert("node_modules"@ =~= seq!['n', 'o', 'd', 'e', '_', 'm', 'o', 'd', 'u', 'l', 'e', 's']);
    assert(".git"@ =~= seq!['.', 'g', 'i', 't']);
    assert("storage"@ =~= seq!['s', 't', 'o', 'r', 'a', 'g', 'e']);
    assert("bootstrap/cache"@ =~= seq!['b', 'o', 'o', 't', 's', 't', 'r', 'a', 'p', '/', 'c', 'a', 'c', 'h', 'e']);
}

/// Law: for a path holding none of the ignored texts (`vendor`,
/// `node_modules`, `.git`, `storage`, `bootstrap/cache`): a path ending in
/// `.env` reloads the config, and a PHP file under a `config/` directory
/// recycles the workers, whatever else its name holds.
pub proof fn law_config_and_env_actions(p: Seq<char>)
    requires
        !has_infix(p, "vendor"@),
        !has_infix(p, "node_modules"@),
        !has_infix(p, ".git"@),
        !has_infix(p, "storage"@),
        !has_infix(p, "bootstrap/cache"@),
    ensures
        has_suffix(p, ".env"@) ==> action_for(p) == Some(DevAction::ReloadConfig),
        has_infix(p, "config/"@) && has_suffix(p, ".php"@) ==> action_for(p) == Some(DevAction::RecycleWorkers),
{
    reveal_strlit("vendor");
    reveal_strlit("node_modules");
    reveal_strlit(".git");
    reveal_strlit("storage");
    reveal_strlit("bootstrap/cache");
    reveal_strlit(".env");
    reveal_strlit("config/");
    reveal_strlit(".php");
    assert("vendor"@ =~= seq!['v', 'e', 'n', 'd', 'o', 'r']);
    assert("node_modules"@ =~= seq!['n', 'o', 'd', 'e', '_', 'm', 'o', 'd', 'u', 'l', 'e', 's']);
    assert(".git"@ =~= seq!['.', 'g', 'i', 't']);
    assert("storage"@ =~= seq!['s', 't', 'o', 'r', 'a', 'g', 'e']);
    assert("bootstrap/cache"@ =~= seq!['b', 'o', 'o', 't', 's', 't', 'r', 'a', 'p', '/', 'c', 'a', 'c', 'h', 'e']);
    assert(".env"@ =~= seq!['.', 'e', 'n', 'v']);
    assert("config/"@ =~= seq!['c', 'o', 'n', 'f', 'i', 'g', '/']);
    assert(".php"@ =~= seq!['.', 'p', 'h', 'p']);
    if has_suffix(p, ".php"@) && has_suffix(p, ".env"@) {
        assert(p[p.len() - 1] == p.subrange(p.len() - 4, p.len() as int)[3]);
    }
}

} // verus!
