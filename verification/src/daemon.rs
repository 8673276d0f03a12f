//! The entry-lifecycle core: the tracked entry store, the reconciler, the
//! expiry evaluator, the rewrite plan, and the event-loop decision function.
//!
//! Timestamps are plain seconds on a monotonic clock supplied by the caller;
//! an entry's age is `now - first_seen`. The store mirrors the order of the
//! external history list (most recent first).

use vstd::prelude::*;

use crate::config::{Config, ConfigView, matches_any, strings_view};

verus! {

/// A clipboard content value together with the time it was first observed,
/// in seconds.
pub struct TrackedEntry {
    pub content: String,
    pub first_seen: u64,
}

/// The mathematical content of a tracked entry.
pub ghost struct Entry {
    pub content: Seq<char>,
    pub first_seen: u64,
}

impl View for TrackedEntry {
    type V = Entry;

    open spec fn view(&self) -> Entry {
        Entry { content: self.content@, first_seen: self.first_seen }
    }
}

/// The mathematical content of a sequence of tracked entries.
pub open spec fn entries_view(entries: Seq<TrackedEntry>) -> Seq<Entry> {
    entries.map_values(|e: TrackedEntry| e@)
}

/// The index of the first entry at or after `start` that is not yet matched
/// and whose content equals `content`, if any.
pub open spec fn first_unmatched(
    entries: Seq<Entry>,
    matched: Seq<bool>,
    content: Seq<char>,
    start: int,
) -> Option<int>
    decreases entries.len() - start,
{
    if start < 0 || start >= entries.len() {
        None
    } else if !matched[start] && entries[start].content == content {
        Some(start)
    } else {
        first_unmatched(entries, matched, content, start + 1)
    }
}

/// One reconciliation pass over a snapshot, against a store whose entries may
/// already be matched. Snapshot contents matching an always-remove pattern
/// are dropped and make the result "changed"; other contents take over the
/// first not-yet-matched entry of equal content, keeping its timestamp, or
/// become a new entry first seen `now`. The result keeps snapshot order.
pub open spec fn reconcile_spec(
    entries: Seq<Entry>,
    matched: Seq<bool>,
    snapshot: Seq<Seq<char>>,
    now: u64,
    cfg: ConfigView,
) -> (Seq<Entry>, bool)
    decreases snapshot.len(),
{
    if snapshot.len() == 0 {
        (Seq::<Entry>::empty(), false)
    } else {
        let content = snapshot[0];
        if matches_any(cfg.always_remove, content) {
            let rest = reconcile_spec(entries, matched, snapshot.drop_first(), now, cfg);
            (rest.0, true)
        } else {
            match first_unmatched(entries, matched, content, 0) {
                Some(i) => {
                    let rest = reconcile_spec(
                        entries,
                        matched.update(i, true),
                        snapshot.drop_first(),
                        now,
                        cfg,
                    );
                    (seq![entries[i]] + rest.0, rest.1)
                },
                None => {
                    let rest = reconcile_spec(entries, matched, snapshot.drop_first(), now, cfg);
                    (seq![Entry { content, first_seen: now }] + rest.0, rest.1)
                },
            }
        }
    }
}

/// A matched-flags sequence with nothing matched yet.
pub open spec fn all_unmatched(len: nat) -> Seq<bool> {
    Seq::new(len, |i: int| false)
}

/// Reconciling a fresh snapshot against the store: no entry matched yet.
pub open spec fn reconciled(
    entries: Seq<Entry>,
    snapshot: Seq<Seq<char>>,
    now: u64,
    cfg: ConfigView,
) -> (Seq<Entry>, bool) {
    reconcile_spec(entries, all_unmatched(entries.len()), snapshot, now, cfg)
}

/// An entry whose age reaches the expiry threshold is expired; the threshold
/// is inclusive.
pub open spec fn entry_expired(e: Entry, now: u64, expiry: u64) -> bool {
    e.first_seen + expiry <= now
}

/// An entry survives an expiry pass when it is not yet expired, or when its
/// content matches a never-remove pattern.
pub open spec fn entry_kept(e: Entry, now: u64, cfg: ConfigView) -> bool {
    !entry_expired(e, now, cfg.expiry) || matches_any(cfg.never_remove, e.content)
}

/// One expiry pass: the surviving entries, in unchanged order.
pub open spec fn expire_spec(entries: Seq<Entry>, now: u64, cfg: ConfigView) -> Seq<Entry>
    decreases entries.len(),
{
    if entries.len() == 0 {
        Seq::<Entry>::empty()
    } else if entry_kept(entries[0], now, cfg) {
        seq![entries[0]] + expire_spec(entries.drop_first(), now, cfg)
    } else {
        expire_spec(entries.drop_first(), now, cfg)
    }
}

/// The mathematical content of the daemon core.
pub ghost struct DaemonView {
    pub config: ConfigView,
    pub entries: Seq<Entry>,
}

/// The daemon core: the configuration and the authoritative in-memory store
/// of tracked entries. Mutated only by `reconcile` and `expire_due_entries`.
pub struct ClipboardDaemon {
    config: Config,
    entries: Vec<TrackedEntry>,
}

/// One step of rewriting the external history: clear it, or push one content
/// value to its front.
pub enum SyncOp {
    Clear,
    Insert(String),
}

/// The content pushed by an insert step, if the step is one.
pub open spec fn insert_of(op: SyncOp) -> Option<Seq<char>> {
    match op {
        SyncOp::Clear => None,
        SyncOp::Insert(s) => Some(s@),
    }
}

impl View for ClipboardDaemon {
    type V = DaemonView;

    closed spec fn view(&self) -> DaemonView {
        DaemonView { config: self.config@, entries: entries_view(self.entries@) }
    }
}

impl ClipboardDaemon {
    /// A daemon core that tracks nothing yet.
    pub fn new(config: Config) -> (d: ClipboardDaemon)
        ensures
            d@.config == config@,
            d@.entries == Seq::<Entry>::empty(),
    {
        let d = ClipboardDaemon { config, entries: Vec::new() };
        proof {
            assert(entries_view(d.entries@) =~= Seq::<Entry>::empty());
        }
        d
    }

    /// The configuration the daemon runs under.
    pub fn config(&self) -> (c: &Config)
        ensures
            c@ == self@.config,
    {
        &self.config
    }

    /// The tracked entries, most recent first.
    pub fn entries(&self) -> (r: &Vec<TrackedEntry>)
        ensures
            entries_view(r@) == self@.entries,
    {
        &self.entries
    }

    /// Merges a fresh history snapshot into the store. Content matching an
    /// always-remove pattern is dropped; content already tracked keeps its
    /// first-seen time, pairing duplicates by first-unmatched index; content
    /// seen for the first time is stamped `now`. Returns whether anything was
    /// filtered out, which is exactly when the external list must be
    /// rewritten.
    pub fn reconcile(&mut self, history: Vec<String>, now: u64) -> (changed: bool)
        ensures
            final(self)@.config == old(self)@.config,
            (final(self)@.entries, changed) == reconciled(
                old(self)@.entries,
                strings_view(history@),
                now,
                old(self)@.config,
            ),
    {
        let ghost entries0 = entries_view(self.entries@);
        let ghost snap = strings_view(history@);
        let ghost cfg = self.config@;
        let ghost full = reconciled(entries0, snap, now, cfg);

        let mut matched: Vec<bool> = Vec::new();
        let mut j: usize = 0;
        while j < self.entries.len()
            invariant
                *self == *old(self),
                j <= self.entries@.len(),
                matched@.len() == j,
                forall|t: int| 0 <= t < j ==> #[trigger] matched@[t] == false,
            decreases self.entries@.len() - j,
        {
            matched.push(false);
            j = j + 1;
        }
        proof {
            assert(entries0 == entries_view(self.entries@));
            assert(matched@ =~= all_unmatched(entries0.len()));
        }

        let mut next: Vec<TrackedEntry> = Vec::new();
        let mut filtered = false;
        let mut k: usize = 0;
        proof {
            assert(snap.skip(0) =~= snap);
            assert(entries_view(Seq::<TrackedEntry>::empty()) =~= Seq::<Entry>::empty());
            assert(Seq::<Entry>::empty() + full.0 =~= full.0);
        }
        while k < history.len()
            invariant
                *self == *old(self),
                k <= history@.len(),
                entries0 == entries_view(self.entries@),
                snap == strings_view(history@),
                cfg == self.config@,
                full == reconciled(entries0, snap, now, cfg),
                matched@.len() == entries0.len(),
                full.0 == entries_view(next@) + reconcile_spec(
                    entries0,
                    matched@,
                    snap.skip(k as int),
                    now,
                    cfg,
                ).0,
                full.1 == (filtered || reconcile_spec(
                    entries0,
                    matched@,
                    snap.skip(k as int),
                    now,
                    cfg,
                ).1),
            decreases history@.len() - k,
        {
            let ghost c = snap[k as int];
            let ghost matched_before = matched@;
            let ghost next_before = next@;
            proof {
                assert(snap[k as int] == history@[k as int]@);
                assert(snap.skip(k as int)[0] == snap[k as int]);
                assert(snap.skip(k as int).drop_first() =~= snap.skip(k as int + 1));
            }
            if self.config.should_always_remove(history[k].as_str()) {
                filtered = true;
            } else {
                let mut i: usize = 0;
                while i < self.entries.len()
                    invariant
                        *self == *old(self),
                        entries0 == entries_view(self.entries@),
                        matched@ == matched_before,
                        matched@.len() == entries0.len(),
                        k < history@.len(),
                        c == history@[k as int]@,
                        i <= entries0.len(),
                        forall|t: int| 0 <= t < i ==> #[trigger] matched@[t]
                            || entries0[t].content != c,
                    ensures
                        i <= entries0.len(),
                        forall|t: int| 0 <= t < i ==> #[trigger] matched@[t]
                            || entries0[t].content != c,
                        i < entries0.len() ==> !matched@[i as int]
                            && entries0[i as int].content == c,
                    decreases entries0.len() - i,
                {
                    if !matched[i] && self.entries[i].content == history[k] {
                        proof {
                            assert(entries0[i as int] == self.entries@[i as int]@);
                        }
                        break;
                    }
                    proof {
                        assert(entries0[i as int] == self.entries@[i as int]@);
                    }
                    i = i + 1;
                }
                proof {
                    lemma_first_unmatched_found(entries0, matched@, c, i as int);
                }
                if i < self.entries.len() {
                    matched[i] = true;
                    let entry = TrackedEntry {
                        content: self.entries[i].content.clone(),
                        first_seen: self.entries[i].first_seen,
                    };
                    proof {
                        assert(entry@ == entries0[i as int]);
                    }
                    next.push(entry);
                    proof {
                        assert(matched@ == matched_before.update(i as int, true));
                        assert(entries_view(next@) =~= entries_view(next_before)
                            + seq![entries0[i as int]]);
                        assert(entries_view(next_before) + (seq![entries0[i as int]]
                            + reconcile_spec(entries0, matched@, snap.skip(k as int + 1), now, cfg).0)
                            =~= entries_view(next@)
                            + reconcile_spec(entries0, matched@, snap.skip(k as int + 1), now, cfg).0);
                    }
                } else {
                    let entry = TrackedEntry { content: history[k].clone(), first_seen: now };
                    proof {
                        assert(entry@ == Entry { content: c, first_seen: now });
                    }
                    next.push(entry);
                    proof {
                        assert(entries_view(next@) =~= entries_view(next_before)
                            + seq![Entry { content: c, first_seen: now }]);
                        assert(entries_view(next_before) + (seq![Entry { content: c, first_seen: now }]
                            + reconcile_spec(entries0, matched@, snap.skip(k as int + 1), now, cfg).0)
                            =~= entries_view(next@)
                            + reconcile_spec(entries0, matched@, snap.skip(k as int + 1), now, cfg).0);
                    }
                }
            }
            k = k + 1;
        }
        proof {
            assert(snap.skip(snap.len() as int) =~= Seq::<Seq<char>>::empty());
            assert(entries_view(next@) + Seq::<Entry>::empty() =~= entries_view(next@));
        }
        self.entries = next;
        filtered
    }

    /// One expiry pass at time `now`: every entry whose age reaches the
    /// expiry threshold is removed, unless its content matches a never-remove
    /// pattern. Survivors keep their order. Returns whether anything was
    /// removed, which is exactly when the external list must be rewritten.
    pub fn expire_due_entries(&mut self, now: u64) -> (changed: bool)
        ensures
            final(self)@.config == old(self)@.config,
            final(self)@.entries == expire_spec(old(self)@.entries, now, old(self)@.config),
            changed == (final(self)@.entries.len() != old(self)@.entries.len()),
    {
        let ghost entries0 = entries_view(self.entries@);
        let ghost cfg = self.config@;
        let ghost full = expire_spec(entries0, now, cfg);

        let mut kept: Vec<TrackedEntry> = Vec::new();
        let mut k: usize = 0;
        proof {
            assert(entries0.skip(0) =~= entries0);
            assert(entries_view(Seq::<TrackedEntry>::empty()) =~= Seq::<Entry>::empty());
            assert(Seq::<Entry>::empty() + full =~= full);
        }
        while k < self.entries.len()
            invariant
                *self == *old(self),
                k <= self.entries@.len(),
                entries0 == entries_view(self.entries@),
                cfg == self.config@,
                full == expire_spec(entries0, now, cfg),
                full == entries_view(kept@) + expire_spec(entries0.skip(k as int), now, cfg),
            decreases self.entries@.len() - k,
        {
            let ghost kept_before = kept@;
            proof {
                assert(entries0.skip(k as int)[0] == entries0[k as int]);
                assert(entries0.skip(k as int).drop_first() =~= entries0.skip(k as int + 1));
                assert(entries0[k as int] == self.entries@[k as int]@);
            }
            let first_seen = self.entries[k].first_seen;
            let expired = now >= first_seen && now - first_seen >= self.config.expiry_seconds();
            let keep = !expired || self.config.should_never_remove(self.entries[k].content.as_str());
            proof {
                assert(keep == entry_kept(entries0[k as int], now, cfg));
            }
            if keep {
                let entry = TrackedEntry {
                    content: self.entries[k].content.clone(),
                    first_seen,
                };
                proof {
                    assert(entry@ == entries0[k as int]);
                }
                kept.push(entry);
                proof {
                    assert(entries_view(kept@) =~= entries_view(kept_before)
                        + seq![entries0[k as int]]);
                    assert(entries_view(kept_before) + (seq![entries0[k as int]]
                        + expire_spec(entries0.skip(k as int + 1), now, cfg))
                        =~= entries_view(kept@) + expire_spec(entries0.skip(k as int + 1), now, cfg));
                }
            }
            k = k + 1;
        }
        proof {
            assert(entries0.skip(entries0.len() as int) =~= Seq::<Entry>::empty());
            assert(entries_view(kept@) + Seq::<Entry>::empty() =~= entries_view(kept@));
        }
        let changed = kept.len() != self.entries.len();
        self.entries = kept;
        changed
    }

    /// The steps that restore the external history to the store's order:
    /// clear it, then reinsert the surviving contents oldest-remaining-first,
    /// so that a service that pushes each insertion to the front ends up in
    /// the store's order, most recent first.
    pub fn plan_rewrite(&self) -> (ops: Vec<SyncOp>)
        ensures
            ops@.len() == self@.entries.len() + 1,
            ops@[0] is Clear,
            forall|i: int| 0 <= i < self@.entries.len() ==> #[trigger] insert_of(ops@[i + 1])
                == Some(self@.entries[self@.entries.len() - 1 - i].content),
    {
        let mut ops: Vec<SyncOp> = Vec::new();
        ops.push(SyncOp::Clear);
        let n = self.entries.len();
        let mut i: usize = 0;
        while i < n
            invariant
                n == self@.entries.len(),
                n == self.entries@.len(),
                entries_view(self.entries@) == self@.entries,
                i <= n,
                ops@.len() == i + 1,
                ops@[0] is Clear,
                forall|j: int| 0 <= j < i ==> #[trigger] insert_of(ops@[j + 1])
                    == Some(self@.entries[n - 1 - j].content),
            decreases n - i,
        {
            let idx = n - 1 - i;
            let content = self.entries[idx].content.clone();
            proof {
                assert(content@ == self@.entries[idx as int].content);
            }
            ops.push(SyncOp::Insert(content));
            i = i + 1;
        }
        ops
    }
}

/// The loop is running, or has seen the shutdown signal and is terminating.
#[derive(Clone, Copy, PartialEq, Eq, Structural, Debug)]
pub enum RunState {
    Running,
    ShuttingDown,
}

/// A trigger that became ready: the shutdown signal, the resync timer, the
/// one-second expiry timer, or a change notification from the service.
#[derive(Clone, Copy, PartialEq, Eq, Structural, Debug)]
pub enum DaemonEvent {
    ShutdownRequested,
    ResyncTick,
    ExpiryTick,
    ChangeNotification,
}

/// What the loop must do for an event: stop, run a fetch-then-reconcile
/// cycle, or run an expiry pass. A cycle rewrites the external history
/// exactly when the pass reports a change.
#[derive(Clone, Copy, PartialEq, Eq, Structural, Debug)]
pub enum DaemonAction {
    Halt,
    Resync,
    Expire,
}

/// Routes one ready trigger to its handler. Shutdown preempts everything:
/// once the state is `ShuttingDown` no further event is processed. A resync
/// tick and a change notification trigger the same reconcile cycle; an
/// expiry tick triggers an expiry pass.
pub fn handle_event(state: RunState, event: DaemonEvent) -> (r: (RunState, DaemonAction))
    ensures
        state is ShuttingDown ==> r == (RunState::ShuttingDown, DaemonAction::Halt),
        state is Running && event is ShutdownRequested ==> r == (
            RunState::ShuttingDown,
            DaemonAction::Halt,
        ),
        state is Running && event is ResyncTick ==> r == (RunState::Running, DaemonAction::Resync),
        state is Running && event is ExpiryTick ==> r == (RunState::Running, DaemonAction::Expire),
        state is Running && event is ChangeNotification ==> r == (
            RunState::Running,
            DaemonAction::Resync,
        ),
{
    match state {
        RunState::ShuttingDown => (RunState::ShuttingDown, DaemonAction::Halt),
        RunState::Running => match event {
            DaemonEvent::ShutdownRequested => (RunState::ShuttingDown, DaemonAction::Halt),
            DaemonEvent::ResyncTick => (RunState::Running, DaemonAction::Resync),
            DaemonEvent::ExpiryTick => (RunState::Running, DaemonAction::Expire),
            DaemonEvent::ChangeNotification => (RunState::Running, DaemonAction::Resync),
        },
    }
}

/// If every index before `i` is matched or differs in content, and `i` (when
/// in range) is unmatched with equal content, then `i` is exactly what the
/// first-unmatched search finds.
proof fn lemma_first_unmatched_from(
    entries: Seq<Entry>,
    matched: Seq<bool>,
    content: Seq<char>,
    start: int,
    i: int,
)
    requires
        matched.len() == entries.len(),
        0 <= start <= i <= entries.len(),
        forall|t: int| start <= t < i ==> #[trigger] matched[t] || entries[t].content != content,
        i < entries.len() ==> !matched[i] && entries[i].content == content,
    ensures
        first_unmatched(entries, matched, content, start) == if i < entries.len() {
            Some(i)
        } else {
            None::<int>
        },
    decreases i - start,
{
    if start < i {
        lemma_first_unmatched_from(entries, matched, content, start + 1, i);
    }
}

/// The whole-store form of `lemma_first_unmatched_from`.
proof fn lemma_first_unmatched_found(
    entries: Seq<Entry>,
    matched: Seq<bool>,
    content: Seq<char>,
    i: int,
)
    requires
        matched.len() == entries.len(),
        0 <= i <= entries.len(),
        forall|t: int| 0 <= t < i ==> #[trigger] matched[t] || entries[t].content != content,
        i < entries.len() ==> !matched[i] && entries[i].content == content,
    ensures
        first_unmatched(entries, matched, content, 0) == if i < entries.len() {
            Some(i)
        } else {
            None::<int>
        },
{
    lemma_first_unmatched_from(entries, matched, content, 0, i);
}

} // verus!
