//! Debounce coalescer and watch-loop decisions: turn a noisy stream of
//! change notifications into settled batches of distinct paths, flushed to
//! the scanner once no event has arrived for a full debounce window.

use vstd::prelude::*;

use crate::scanner::{
    sat_add, scan_path, seq_byte_total, seq_file_count, FsTree, Stats,
};

verus! {

/// The kind of a change notification, as the notification subsystem
/// reports it.
#[derive(Clone, Copy, Debug, PartialEq, Eq, Structural)]
pub enum ChangeKind {
    /// Something was created.
    Create,
    /// Something was removed.
    Remove,
    /// File contents changed.
    ModifyData,
    /// File metadata changed.
    ModifyMetadata,
    /// A name changed (any rename sub-kind).
    ModifyName,
    /// An unspecified modification.
    ModifyAny,
    /// Some other modification sub-kind.
    ModifyOther,
    /// An access notification.
    Access,
    /// An unclassified notification.
    Any,
    /// Some other notification kind.
    Other,
}

/// Accepted kinds: creation, removal, and every modification sub-kind but
/// "other" (data, metadata, name, unspecified-any). Everything else is
/// dropped by the coalescer.
pub open spec fn is_accepted_kind(k: ChangeKind) -> bool {
    match k {
        ChangeKind::Create => true,
        ChangeKind::Remove => true,
        ChangeKind::ModifyData => true,
        ChangeKind::ModifyMetadata => true,
        ChangeKind::ModifyName => true,
        ChangeKind::ModifyAny => true,
        _ => false,
    }
}

/// Does an event of this kind enter the pending set and reset the settle
/// clock?
pub fn should_process(kind: &ChangeKind) -> (r: bool)
    ensures
        r == is_accepted_kind(*kind),
{
    match kind {
        ChangeKind::Create => true,
        ChangeKind::Remove => true,
        ChangeKind::ModifyData => true,
        ChangeKind::ModifyMetadata => true,
        ChangeKind::ModifyName => true,
        ChangeKind::ModifyAny => true,
        _ => false,
    }
}

/// The character sequences of a sequence of owned paths.
pub open spec fn path_views(v: Seq<String>) -> Seq<Seq<char>> {
    v.map_values(|s: String| s@)
}

/// The ghost model of the coalescer: the set of pending paths, the settle
/// clock (the time in milliseconds of the most recent accepted event, or
/// unset), and the debounce window in milliseconds.
#[verifier::ext_equal]
pub struct CoalescerModel {
    pub pending: Set<Seq<char>>,
    pub clock: Option<u64>,
    pub window: u64,
}

impl CoalescerModel {
    /// The settle clock is set exactly when a path is pending.
    pub open spec fn clock_tracks_pending(self) -> bool {
        self.clock is None <==> self.pending == Set::<Seq<char>>::empty()
    }
}

/// One observation handed to the watch loop per iteration: a change
/// notification from the source, a source-level error, a timeout on the
/// bounded wait, or the permanent close of the event source.
pub enum LoopEvent {
    Change { kind: ChangeKind, paths: Vec<String> },
    SourceError,
    Timeout,
    Closed,
}

/// The ghost model of a loop observation.
#[verifier::ext_equal]
pub enum LoopEventModel {
    Change { kind: ChangeKind, paths: Seq<Seq<char>> },
    SourceError,
    Timeout,
    Closed,
}

impl View for LoopEvent {
    type V = LoopEventModel;

    open spec fn view(&self) -> LoopEventModel {
        match self {
            LoopEvent::Change { kind, paths } => LoopEventModel::Change {
                kind: *kind,
                paths: path_views(paths@),
            },
            LoopEvent::SourceError => LoopEventModel::SourceError,
            LoopEvent::Timeout => LoopEventModel::Timeout,
            LoopEvent::Closed => LoopEventModel::Closed,
        }
    }
}

/// The model after accepting an event naming `paths` at time `now`: the
/// paths are unioned into the pending set and the settle clock resets to
/// `now` (it stays unset in the degenerate case that nothing is pending
/// even afterwards).
pub open spec fn accept_model(m: CoalescerModel, paths: Seq<Seq<char>>, now: u64) -> CoalescerModel {
    let pending = m.pending.union(paths.to_set());
    CoalescerModel {
        pending,
        clock: if pending == Set::<Seq<char>>::empty() {
            Option::None
        } else {
            Option::Some(now)
        },
        window: m.window,
    }
}

/// Does a timeout tick at `now` fire a flush: a path is pending and at
/// least one debounce window has elapsed since the settle clock.
pub open spec fn tick_fires(m: CoalescerModel, now: u64) -> bool {
    match m.clock {
        Option::Some(t) => m.pending != Set::<Seq<char>>::empty() && now >= t + m.window,
        Option::None => false,
    }
}

/// Does a timeout tick report statistics: exactly when the settle clock
/// was running as the tick arrived (whether or not the tick also fires a
/// flush).
pub open spec fn tick_reports(m: CoalescerModel) -> bool {
    m.clock is Some
}

/// The model after one loop observation: an accepted change event is
/// coalesced in, a rejected one is dropped, a firing timeout tick empties
/// the state, and a source error or the close of the source changes
/// nothing.
pub open spec fn step_model(m: CoalescerModel, ev: LoopEventModel, now: u64) -> CoalescerModel {
    match ev {
        LoopEventModel::Change { kind, paths } => if is_accepted_kind(kind) {
            accept_model(m, paths, now)
        } else {
            m
        },
        LoopEventModel::SourceError => m,
        LoopEventModel::Timeout => if tick_fires(m, now) {
            CoalescerModel { pending: Set::empty(), clock: Option::None, window: m.window }
        } else {
            m
        },
        LoopEventModel::Closed => m,
    }
}

/// Scan every path snapshot of a settled batch, folding each contribution
/// into the running totals. A snapshot whose path is gone or unreadable
/// (`Absent`) contributes nothing and never prevents the rest of the
/// batch from being scanned.
pub fn flush_batch(batch: &Vec<FsTree>, stats: &mut Stats)
    ensures
        final(stats).files == sat_add(old(stats).files as int, seq_file_count(batch@)),
        final(stats).total_bytes == sat_add(
            old(stats).total_bytes as int,
            seq_byte_total(batch@),
        ),
{
    let n = batch.len();
    let mut i: usize = 0;
    assert(batch@.take(0) =~= Seq::<FsTree>::empty());
    while i < n
        invariant
            n == batch@.len(),
            i <= n,
            stats.files == sat_add(old(stats).files as int, seq_file_count(batch@.take(i as int))),
            stats.total_bytes == sat_add(
                old(stats).total_bytes as int,
                seq_byte_total(batch@.take(i as int)),
            ),
        decreases n - i,
    {
        proof {
            crate::scanner::lemma_seq_totals_take_step(batch@, i as int);
            crate::scanner::lemma_seq_totals_nonneg(batch@.take(i as int));
            crate::scanner::lemma_tree_totals_nonneg(batch@[i as int]);
        }
        scan_path(&batch[i], stats);
        i = i + 1;
    }
    assert(batch@.take(n as int) =~= batch@);
}

/// Appending one path adds exactly its characters to the path set.
proof fn lemma_path_set_push(s: Seq<String>, x: String)
    ensures
        path_views(s.push(x)).to_set() =~= path_views(s).to_set().insert(x@),
{
    assert(path_views(s.push(x)) =~= path_views(s).push(x@));
    let vs = path_views(s);
    assert forall|a: Seq<char>| #[trigger] vs.push(x@).to_set().contains(a) implies vs.to_set().insert(
        x@,
    ).contains(a) by {
        let i = choose|i: int| 0 <= i < vs.push(x@).len() && vs.push(x@)[i] == a;
        if i < vs.len() {
            assert(vs[i] == a);
        }
    }
    assert forall|a: Seq<char>| #[trigger] vs.to_set().insert(x@).contains(a) implies vs.push(
        x@,
    ).to_set().contains(a) by {
        if a == x@ {
            assert(vs.push(x@)[vs.len() as int] == a);
        } else {
            let i = choose|i: int| 0 <= i < vs.len() && vs[i] == a;
            assert(vs.push(x@)[i] == a);
        }
    }
    assert(vs.push(x@).to_set() =~= vs.to_set().insert(x@));
}

/// The path set of a one-longer prefix grows by the next path's
/// characters.
proof fn lemma_path_set_take_step(s: Seq<Seq<char>>, i: int)
    requires
        0 <= i < s.len(),
    ensures
        s.take(i + 1).to_set() =~= s.take(i).to_set().insert(s[i]),
{
    assert forall|a: Seq<char>| #[trigger] s.take(i + 1).to_set().contains(a) implies s.take(
        i,
    ).to_set().insert(s[i]).contains(a) by {
        let j = choose|j: int| 0 <= j < s.take(i + 1).len() && #[trigger] s.take(i + 1)[j] == a;
        if j < i {
            assert(s.take(i)[j] == a);
        }
    }
    assert forall|a: Seq<char>| #[trigger] s.take(i).to_set().insert(s[i]).contains(a) implies s.take(
        i + 1,
    ).to_set().contains(a) by {
        if a == s[i] {
            assert(s.take(i + 1)[i] == a);
        } else {
            let j = choose|j: int| 0 <= j < s.take(i).len() && s.take(i)[j] == a;
            assert(s.take(i + 1)[j] == a);
        }
    }
}

/// A non-empty sequence of paths has a non-empty path set; an empty one
/// has the empty set.
proof fn lemma_path_set_len(s: Seq<String>)
    ensures
        s.len() == 0 ==> path_views(s).to_set() == Set::<Seq<char>>::empty(),
        s.len() > 0 ==> path_views(s).to_set() != Set::<Seq<char>>::empty(),
{
    if s.len() == 0 {
        assert(path_views(s).to_set() =~= Set::<Seq<char>>::empty());
    } else {
        assert(path_views(s)[0] == s[0]@);
        assert(path_views(s).to_set().contains(s[0]@));
    }
}

/// Is a path with exactly these characters already held?
fn contains_path(v: &Vec<String>, p: &String) -> (r: bool)
    ensures
        r == path_views(v@).to_set().contains(p@),
{
    let n = v.len();
    let mut i: usize = 0;
    while i < n
        invariant
            n == v@.len(),
            i <= n,
            forall|j: int| 0 <= j < i ==> path_views(v@)[j] != p@,
        decreases n - i,
    {
        if v[i] == *p {
            assert(path_views(v@).to_set().contains(p@)) by {
                assert(path_views(v@)[i as int] == p@);
            }
            return true;
        }
        i = i + 1;
    }
    assert(!path_views(v@).to_set().contains(p@)) by {
        if path_views(v@).contains(p@) {
            let j = choose|j: int| 0 <= j < path_views(v@).len() && path_views(v@)[j] == p@;
        }
    }
    false
}

/// The debounce coalescer: the distinct paths that changed since the last
/// flush, and the settle clock, the time in milliseconds of the most
/// recent accepted event. Its model is a `CoalescerModel`.
pub struct Coalescer {
    pending: Vec<String>,
    last_hit: Option<u64>,
    window_ms: u64,
}

impl View for Coalescer {
    type V = CoalescerModel;

    closed spec fn view(&self) -> CoalescerModel {
        CoalescerModel {
            pending: path_views(self.pending@).to_set(),
            clock: self.last_hit,
            window: self.window_ms,
        }
    }
}

/// The outcome of one timeout tick: the settled batch to scan, if the
/// debounce window has elapsed, and whether to report statistics.
pub struct TickOutcome {
    pub batch: Option<Vec<String>>,
    pub report: bool,
}

/// What the caller of `step` is to do next.
pub enum LoopAction {
    /// Nothing; keep waiting for the next observation.
    Continue,
    /// A timeout tick: scan the batch, if one settled, then report the
    /// statistics if asked.
    Tick { batch: Option<Vec<String>>, report: bool },
    /// The event source closed permanently; the watch ends.
    Stop,
}

impl Coalescer {
    /// Internal invariant: no path is held twice, and the settle clock is
    /// set exactly when a path is pending.
    pub closed spec fn wf(self) -> bool {
        &&& path_views(self.pending@).no_duplicates()
        &&& (self.last_hit is None <==> self.pending@.len() == 0)
    }

    /// A well-formed coalescer's clock tracks its pending set.
    pub proof fn lemma_wf_clock(self)
        requires
            self.wf(),
        ensures
            self@.clock_tracks_pending(),
    {
        lemma_path_set_len(self.pending@);
    }

    /// A fresh, idle coalescer with the given debounce window.
    pub fn new(window_ms: u64) -> (c: Coalescer)
        ensures
            c.wf(),
            c@.pending == Set::<Seq<char>>::empty(),
            c@.clock is None,
            c@.window == window_ms,
    {
        let c = Coalescer { pending: Vec::new(), last_hit: None, window_ms };
        proof {
            lemma_path_set_len(c.pending@);
        }
        c
    }

    /// Feed one change notification: an accepted kind unions the named
    /// paths into the pending set — once per distinct path — and resets
    /// the settle clock to `now_ms`; a rejected kind changes nothing.
    pub fn on_event(&mut self, kind: &ChangeKind, paths: Vec<String>, now_ms: u64)
        requires
            old(self).wf(),
        ensures
            final(self).wf(),
            final(self)@ == step_model(
                old(self)@,
                LoopEventModel::Change { kind: *kind, paths: path_views(paths@) },
                now_ms,
            ),
    {
        if should_process(kind) {
            let ghost vs = path_views(paths@);
            let n = paths.len();
            let mut i: usize = 0;
            assert(vs.take(0).to_set() =~= Set::<Seq<char>>::empty());
            assert(old(self)@.pending.union(vs.take(0).to_set()) =~= old(self)@.pending);
            while i < n
                invariant
                    n == paths@.len(),
                    i <= n,
                    vs == path_views(paths@),
                    path_views(self.pending@).no_duplicates(),
                    path_views(self.pending@).to_set() == old(self)@.pending.union(
                        vs.take(i as int).to_set(),
                    ),
                    self.last_hit == old(self).last_hit,
                    self.window_ms == old(self).window_ms,
                    old(self).wf(),
                decreases n - i,
            {
                proof {
                    lemma_path_set_take_step(vs, i as int);
                    assert(vs[i as int] == paths@[i as int]@);
                }
                let p = &paths[i];
                if !contains_path(&self.pending, p) {
                    let ghost before = self.pending@;
                    self.pending.push(p.clone());
                    proof {
                        lemma_path_set_push(before, paths@[i as int]);
                        assert(path_views(before.push(paths@[i as int])) =~= path_views(
                            before,
                        ).push(paths@[i as int]@));
                        assert(path_views(self.pending@).to_set() =~= old(self)@.pending.union(
                            vs.take(i as int + 1).to_set(),
                        ));
                    }
                } else {
                    proof {
                        assert(path_views(self.pending@).to_set() =~= old(self)@.pending.union(
                            vs.take(i as int + 1).to_set(),
                        ));
                    }
                }
                i = i + 1;
            }
            assert(vs.take(n as int) =~= vs);
            if self.pending.len() > 0 {
                self.last_hit = Some(now_ms);
            }
            proof {
                lemma_path_set_len(self.pending@);
                lemma_path_set_len(old(self).pending@);
                if self.pending@.len() == 0 {
                    assert(old(self)@.pending =~= Set::<Seq<char>>::empty());
                }
                assert(self@ =~= accept_model(old(self)@, vs, now_ms));
            }
        }
    }

    /// Handle a timeout tick at `now_ms`. If a path is pending and no
    /// accepted event has arrived for a full debounce window, the pending
    /// paths are handed back as the settled batch — each distinct path
    /// exactly once — and the coalescer returns to idle. Statistics are
    /// to be reported exactly when the settle clock was running.
    pub fn handle_timeout(&mut self, now_ms: u64) -> (out: TickOutcome)
        requires
            old(self).wf(),
        ensures
            final(self).wf(),
            final(self)@ == step_model(old(self)@, LoopEventModel::Timeout, now_ms),
            out.report == tick_reports(old(self)@),
            tick_fires(old(self)@, now_ms) ==> (out.batch matches Some(b)
                && path_views(b@).to_set() == old(self)@.pending && path_views(
                b@,
            ).no_duplicates()),
            !tick_fires(old(self)@, now_ms) ==> out.batch is None,
    {
        proof {
            lemma_path_set_len(self.pending@);
        }
        match self.last_hit {
            None => TickOutcome { batch: None, report: false },
            Some(t) => {
                let fire = self.pending.len() > 0 && now_ms >= t && now_ms - t >= self.window_ms;
                if fire {
                    let mut batch: Vec<String> = Vec::new();
                    core::mem::swap(&mut self.pending, &mut batch);
                    self.last_hit = None;
                    proof {
                        lemma_path_set_len(self.pending@);
                        assert(self@ =~= step_model(old(self)@, LoopEventModel::Timeout, now_ms));
                    }
                    TickOutcome { batch: Some(batch), report: true }
                } else {
                    TickOutcome { batch: None, report: true }
                }
            },
        }
    }

    /// Drive the watch loop by one observation: coalesce an accepted
    /// change event, drop a rejected one, absorb a source-level error
    /// without touching any state, decide flush and report on a timeout
    /// tick, and stop when the source has closed.
    pub fn step(&mut self, ev: LoopEvent, now_ms: u64) -> (act: LoopAction)
        requires
            old(self).wf(),
        ensures
            final(self).wf(),
            final(self)@ == step_model(old(self)@, ev@, now_ms),
            (ev@ matches LoopEventModel::Change { .. }) ==> act is Continue,
            ev@ == LoopEventModel::SourceError ==> act is Continue,
            ev@ == LoopEventModel::Closed ==> act is Stop,
            ev@ == LoopEventModel::Timeout ==> (act matches LoopAction::Tick { batch, report }
                && report == tick_reports(old(self)@) && (tick_fires(old(self)@, now_ms) ==> (
            batch matches Some(b) && path_views(b@).to_set() == old(self)@.pending && path_views(
                b@,
            ).no_duplicates())) && (!tick_fires(old(self)@, now_ms) ==> batch is None)),
    {
        match ev {
            LoopEvent::Change { kind, paths } => {
                self.on_event(&kind, paths, now_ms);
                LoopAction::Continue
            },
            LoopEvent::SourceError => LoopAction::Continue,
            LoopEvent::Timeout => {
                let out = self.handle_timeout(now_ms);
                LoopAction::Tick { batch: out.batch, report: out.report }
            },
            LoopEvent::Closed => LoopAction::Stop,
        }
    }
}

/// The model after a whole sequence of timed loop observations, applied
/// in order.
pub open spec fn apply_events(m: CoalescerModel, evs: Seq<(LoopEventModel, u64)>) -> CoalescerModel
    decreases evs.len(),
{
    if evs.len() == 0 {
        m
    } else {
        apply_events(step_model(m, evs[0].0, evs[0].1), evs.drop_first())
    }
}

/// The union of the path sets of the accepted change events in a
/// sequence of observations.
pub open spec fn accepted_paths(evs: Seq<(LoopEventModel, u64)>) -> Set<Seq<char>>
    decreases evs.len(),
{
    if evs.len() == 0 {
        Set::empty()
    } else {
        let head = match evs[0].0 {
            LoopEventModel::Change { kind, paths } => if is_accepted_kind(kind) {
                paths.to_set()
            } else {
                Set::empty()
            },
            _ => Set::empty(),
        };
        head.union(accepted_paths(evs.drop_first()))
    }
}

/// No observation in the sequence is a timeout tick.
pub open spec fn no_timeout(evs: Seq<(LoopEventModel, u64)>) -> bool {
    forall|i: int| 0 <= i < evs.len() ==> !((#[trigger] evs[i]).0 is Timeout)
}

/// Accumulation: over any stretch of loop observations with no timeout
/// tick, the pending set grows by exactly the union of the paths of the
/// accepted change events. Rejected kinds, source errors and the close of
/// the source neither add nor lose a path, and the window never changes.
pub proof fn lemma_accumulation(m: CoalescerModel, evs: Seq<(LoopEventModel, u64)>)
    requires
        no_timeout(evs),
    ensures
        apply_events(m, evs).pending == m.pending.union(accepted_paths(evs)),
        apply_events(m, evs).window == m.window,
    decreases evs.len(),
{
    if evs.len() == 0 {
        assert(m.pending.union(accepted_paths(evs)) =~= m.pending);
    } else {
        let m1 = step_model(m, evs[0].0, evs[0].1);
        assert(no_timeout(evs.drop_first())) by {
            assert forall|i: int| 0 <= i < evs.drop_first().len() implies !((#[trigger] evs.drop_first()[i]).0
                is Timeout) by {
                assert(evs.drop_first()[i] == evs[i + 1]);
            }
        }
        lemma_accumulation(m1, evs.drop_first());
        assert(m1.pending.union(accepted_paths(evs.drop_first())) =~= m.pending.union(
            accepted_paths(evs),
        ));
    }
}

/// Whether an observation is an accepted change event naming exactly the
/// one path `p`.
pub open spec fn is_event_on_path(ev: LoopEventModel, p: Seq<char>) -> bool {
    match ev {
        LoopEventModel::Change { kind, paths } => is_accepted_kind(kind) && paths.to_set()
            == Set::<Seq<char>>::empty().insert(p),
        _ => false,
    }
}

/// The accepted paths of a non-empty sequence of events that all name the
/// one path `p` are exactly `{ p }`.
proof fn lemma_accepted_paths_single(evs: Seq<(LoopEventModel, u64)>, p: Seq<char>)
    requires
        evs.len() > 0,
        forall|i: int| 0 <= i < evs.len() ==> is_event_on_path((#[trigger] evs[i]).0, p),
    ensures
        accepted_paths(evs) == Set::<Seq<char>>::empty().insert(p),
    decreases evs.len(),
{
    assert(is_event_on_path(evs[0].0, p));
    if evs.len() == 1 {
        assert(accepted_paths(evs.drop_first()) =~= Set::<Seq<char>>::empty());
        assert(accepted_paths(evs) =~= Set::<Seq<char>>::empty().insert(p));
    } else {
        assert forall|i: int| 0 <= i < evs.drop_first().len() implies is_event_on_path(
            (#[trigger] evs.drop_first()[i]).0,
            p,
        ) by {
            assert(evs.drop_first()[i] == evs[i + 1]);
        }
        lemma_accepted_paths_single(evs.drop_first(), p);
        assert(accepted_paths(evs) =~= Set::<Seq<char>>::empty().insert(p));
    }
}

/// Coalescing idempotence: starting idle, any number of accepted events
/// that all name the same single path leave exactly that one path
/// pending, so the settled batch scans it once, however many events
/// arrived.
pub proof fn lemma_coalescing_idempotent(
    m: CoalescerModel,
    evs: Seq<(LoopEventModel, u64)>,
    p: Seq<char>,
)
    requires
        m.pending == Set::<Seq<char>>::empty(),
        evs.len() > 0,
        forall|i: int| 0 <= i < evs.len() ==> is_event_on_path((#[trigger] evs[i]).0, p),
    ensures
        apply_events(m, evs).pending == Set::<Seq<char>>::empty().insert(p),
{
    assert(no_timeout(evs));
    lemma_accumulation(m, evs);
    lemma_accepted_paths_single(evs, p);
    assert(m.pending.union(Set::<Seq<char>>::empty().insert(p)) =~= Set::<
        Seq<char>,
    >::empty().insert(p));
}

/// Union correctness: starting idle, any stretch of sub-window bursts
/// (no tick in between) leaves pending exactly the union of the accepted
/// events' paths — so that set, and nothing else, is what a then-firing
/// tick flushes, and the flush returns the coalescer to idle.
pub proof fn lemma_union_correctness(m: CoalescerModel, evs: Seq<(LoopEventModel, u64)>, t: u64)
    requires
        m.pending == Set::<Seq<char>>::empty(),
        no_timeout(evs),
    ensures
        apply_events(m, evs).pending == accepted_paths(evs),
        tick_fires(apply_events(m, evs), t) ==> apply_events(
            m,
            evs + seq![(LoopEventModel::Timeout, t)],
        ).pending == Set::<Seq<char>>::empty(),
{
    lemma_accumulation(m, evs);
    assert(m.pending.union(accepted_paths(evs)) =~= accepted_paths(evs));
    let m1 = apply_events(m, evs);
    lemma_apply_events_concat(m, evs, seq![(LoopEventModel::Timeout, t)]);
    let tick = seq![(LoopEventModel::Timeout, t)];
    assert(tick[0] == (LoopEventModel::Timeout, t));
    assert(tick.drop_first() =~= Seq::<(LoopEventModel, u64)>::empty());
    let m2 = step_model(m1, LoopEventModel::Timeout, t);
    assert(apply_events(m2, Seq::<(LoopEventModel, u64)>::empty()) == m2);
    assert(apply_events(m1, tick) == m2);
}

/// Applying a concatenation of observation sequences is applying one
/// after the other.
pub proof fn lemma_apply_events_concat(
    m: CoalescerModel,
    a: Seq<(LoopEventModel, u64)>,
    b: Seq<(LoopEventModel, u64)>,
)
    ensures
        apply_events(m, a + b) == apply_events(apply_events(m, a), b),
    decreases a.len(),
{
    if a.len() == 0 {
        assert(a + b =~= b);
    } else {
        assert((a + b)[0] == a[0]);
        assert((a + b).drop_first() =~= a.drop_first() + b);
        lemma_apply_events_concat(step_model(m, a[0].0, a[0].1), a.drop_first(), b);
    }
}

/// Error isolation: a source-level error anywhere in the stream changes
/// nothing — the state after the surrounding observations is exactly what
/// it would have been had the error never been reported, so no path
/// accumulated on either side of it is lost or altered.
pub proof fn lemma_error_isolation(
    m: CoalescerModel,
    before: Seq<(LoopEventModel, u64)>,
    t: u64,
    after: Seq<(LoopEventModel, u64)>,
)
    ensures
        apply_events(m, before + seq![(LoopEventModel::SourceError, t)] + after) == apply_events(
            m,
            before + after,
        ),
{
    let err = seq![(LoopEventModel::SourceError, t)];
    assert(before + err + after =~= before + (err + after));
    lemma_apply_events_concat(m, before, err + after);
    lemma_apply_events_concat(m, before, after);
    let m1 = apply_events(m, before);
    assert((err + after)[0] == (LoopEventModel::SourceError, t));
    assert((err + after).drop_first() =~= after);
    assert(step_model(m1, LoopEventModel::SourceError, t) == m1);
}

/// Debounce timing: with the settle clock set at `t`, a timeout tick
/// strictly before `t` plus the window never flushes and changes nothing;
/// from `t` plus the window on, a tick with a pending path flushes and
/// returns the coalescer to idle.
pub proof fn lemma_debounce_timing(m: CoalescerModel, t: u64, now: u64)
    requires
        m.clock == Some(t),
    ensures
        (now as int) < t + m.window ==> !tick_fires(m, now) && step_model(
            m,
            LoopEventModel::Timeout,
            now,
        ) == m,
        (now as int) >= t + m.window && m.pending != Set::<Seq<char>>::empty() ==> tick_fires(
            m,
            now,
        ) && step_model(m, LoopEventModel::Timeout, now).pending == Set::<Seq<char>>::empty()
            && step_model(m, LoopEventModel::Timeout, now).clock is None,
{
}

/// Filter correctness: an event whose kind the coalescer does not accept
/// changes nothing — it neither enters the pending set nor moves the
/// settle clock.
pub proof fn lemma_ignored_kind_no_effect(
    m: CoalescerModel,
    kind: ChangeKind,
    paths: Seq<Seq<char>>,
    now: u64,
)
    requires
        !is_accepted_kind(kind),
    ensures
        step_model(m, LoopEventModel::Change { kind, paths }, now) == m,
{
}

/// Quiet periods: a timeout tick while idle takes no action at all — no
/// flush, no report, no state change.
pub proof fn lemma_quiet_tick(m: CoalescerModel, now: u64)
    requires
        m.clock is None,
    ensures
        !tick_fires(m, now),
        !tick_reports(m),
        step_model(m, LoopEventModel::Timeout, now) == m,
{
}

} // verus!
