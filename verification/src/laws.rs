//! Properties that hold of the reconciler and the expiry evaluator, proved
//! from their specifications: timestamps are preserved across snapshots,
//! an all-filtered snapshot empties the store, never-remove contents are
//! exempt from expiry, and the expiry threshold is inclusive.

use vstd::prelude::*;

use crate::config::{ConfigView, matches_any};
use crate::daemon::{
    Entry, all_unmatched, entry_kept, expire_spec, first_unmatched, reconcile_spec, reconciled,
};

verus! {

/// The first entry of the store whose content is `content`, if any.
pub open spec fn first_entry_with(entries: Seq<Entry>, content: Seq<char>) -> Option<Entry>
    decreases entries.len(),
{
    if entries.len() == 0 {
        None
    } else if entries[0].content == content {
        Some(entries[0])
    } else {
        first_entry_with(entries.drop_first(), content)
    }
}

/// No entry with this content is flagged as matched.
pub open spec fn content_unmatched(entries: Seq<Entry>, matched: Seq<bool>, content: Seq<char>) -> bool {
    forall|t: int| 0 <= t < entries.len() && entries[t].content == content ==> !(#[trigger] matched[t])
}

/// A nonempty sequence contains a value exactly when its head is the value
/// or its tail contains it.
proof fn lemma_contains_head_or_tail(s: Seq<Entry>, e: Entry)
    requires
        s.len() > 0,
    ensures
        s.contains(e) <==> (s[0] == e || s.drop_first().contains(e)),
{
    if s.contains(e) {
        let k = choose|k: int| 0 <= k < s.len() && s[k] == e;
        if k > 0 {
            assert(s.drop_first()[k - 1] == e);
        }
    }
    if s.drop_first().contains(e) {
        let k = choose|k: int| 0 <= k < s.drop_first().len() && s.drop_first()[k] == e;
        assert(s[k + 1] == e);
    }
}

/// Likewise for a sequence of content values.
proof fn lemma_snapshot_tail_contains(s: Seq<Seq<char>>, x: Seq<char>)
    requires
        s.contains(x),
        s.len() > 0,
        s[0] != x,
    ensures
        s.drop_first().contains(x),
{
    let k = choose|k: int| 0 <= k < s.len() && s[k] == x;
    assert(s.drop_first()[k - 1] == x);
}

/// The first entry of a store with one entry put in front.
proof fn lemma_first_entry_with_cons(e: Entry, s: Seq<Entry>, content: Seq<char>)
    ensures
        first_entry_with(seq![e] + s, content) == if e.content == content {
            Some(e)
        } else {
            first_entry_with(s, content)
        },
{
    let t = seq![e] + s;
    assert(t[0] == e);
    assert(t.drop_first() =~= s);
}

/// Flagging an entry of different content does not change which entry the
/// first-unmatched search finds for `content`.
proof fn lemma_first_unmatched_update_other(
    entries: Seq<Entry>,
    matched: Seq<bool>,
    content: Seq<char>,
    start: int,
    i: int,
)
    requires
        matched.len() == entries.len(),
        0 <= i < entries.len(),
        entries[i].content != content,
        0 <= start <= entries.len(),
    ensures
        first_unmatched(entries, matched.update(i, true), content, start) == first_unmatched(
            entries,
            matched,
            content,
            start,
        ),
    decreases entries.len() - start,
{
    if start < entries.len() {
        lemma_first_unmatched_update_other(entries, matched, content, start + 1, i);
    }
}

/// What a successful first-unmatched search says of the index it finds.
proof fn lemma_first_unmatched_some(
    entries: Seq<Entry>,
    matched: Seq<bool>,
    content: Seq<char>,
    start: int,
)
    requires
        0 <= start,
    ensures
        match first_unmatched(entries, matched, content, start) {
            Some(i) => start <= i < entries.len() && !matched[i] && entries[i].content == content,
            None => true,
        },
    decreases entries.len() - start,
{
    if start < entries.len() {
        if matched[start] || entries[start].content != content {
            lemma_first_unmatched_some(entries, matched, content, start + 1);
        }
    }
}

/// Where nothing of this content is matched, the first-unmatched search for
/// it finds exactly the store's first entry of that content.
proof fn lemma_first_unmatched_is_first_entry(
    entries: Seq<Entry>,
    matched: Seq<bool>,
    content: Seq<char>,
    start: int,
)
    requires
        matched.len() == entries.len(),
        0 <= start <= entries.len(),
        content_unmatched(entries, matched, content),
    ensures
        match first_unmatched(entries, matched, content, start) {
            Some(i) => start <= i < entries.len() && entries[i].content == content
                && first_entry_with(entries.skip(start), content) == Some(entries[i]),
            None => first_entry_with(entries.skip(start), content) is None,
        },
    decreases entries.len() - start,
{
    if start < entries.len() {
        assert(entries.skip(start)[0] == entries[start]);
        assert(entries.skip(start).drop_first() =~= entries.skip(start + 1));
        if entries[start].content == content {
            assert(!matched[start]);
        } else {
            lemma_first_unmatched_is_first_entry(entries, matched, content, start + 1);
        }
    } else {
        assert(entries.skip(start) =~= Seq::<Entry>::empty());
    }
}

/// What reconciliation makes of the first entry for a content value that the
/// snapshot holds and the filter admits: the first not-yet-matched entry of
/// that content survives with its timestamp, and where the store has none, a
/// new entry stamped `now` appears.
proof fn lemma_reconcile_first_entry(
    entries: Seq<Entry>,
    matched: Seq<bool>,
    snapshot: Seq<Seq<char>>,
    now: u64,
    cfg: ConfigView,
    content: Seq<char>,
)
    requires
        matched.len() == entries.len(),
        snapshot.contains(content),
        !matches_any(cfg.always_remove, content),
        content_unmatched(entries, matched, content),
    ensures
        first_entry_with(reconcile_spec(entries, matched, snapshot, now, cfg).0, content)
            == match first_unmatched(entries, matched, content, 0) {
            Some(i) => Some(entries[i]),
            None => Some(Entry { content, first_seen: now }),
        },
    decreases snapshot.len(),
{
    let c0 = snapshot[0];
    let tail = snapshot.drop_first();
    if matches_any(cfg.always_remove, c0) {
        assert(c0 != content);
        lemma_snapshot_tail_contains(snapshot, content);
        lemma_reconcile_first_entry(entries, matched, tail, now, cfg, content);
    } else {
        lemma_first_unmatched_some(entries, matched, c0, 0);
        match first_unmatched(entries, matched, c0, 0) {
            Some(i) => {
                let rest = reconcile_spec(entries, matched.update(i, true), tail, now, cfg);
                lemma_first_entry_with_cons(entries[i], rest.0, content);
                if c0 == content {
                    assert(entries[i].content == content);
                } else {
                    assert(entries[i].content == c0);
                    lemma_snapshot_tail_contains(snapshot, content);
                    assert(content_unmatched(entries, matched.update(i, true), content));
                    lemma_reconcile_first_entry(
                        entries,
                        matched.update(i, true),
                        tail,
                        now,
                        cfg,
                        content,
                    );
                    lemma_first_unmatched_update_other(entries, matched, content, 0, i);
                }
            },
            None => {
                let rest = reconcile_spec(entries, matched, tail, now, cfg);
                lemma_first_entry_with_cons(Entry { content: c0, first_seen: now }, rest.0, content);
                if c0 == content {
                } else {
                    lemma_snapshot_tail_contains(snapshot, content);
                    lemma_reconcile_first_entry(entries, matched, tail, now, cfg, content);
                }
            },
        }
    }
}

/// Timestamp preservation: where a content value appears in two successive
/// snapshots and is not filtered, reconciling both leaves its first entry
/// with the first-seen time the first reconciliation established; the second
/// does not reset it.
pub proof fn lemma_timestamp_preservation(
    entries: Seq<Entry>,
    s1: Seq<Seq<char>>,
    s2: Seq<Seq<char>>,
    t1: u64,
    t2: u64,
    cfg: ConfigView,
    content: Seq<char>,
)
    requires
        s1.contains(content),
        s2.contains(content),
        !matches_any(cfg.always_remove, content),
    ensures
        ({
            let st1 = reconciled(entries, s1, t1, cfg).0;
            let st2 = reconciled(st1, s2, t2, cfg).0;
            &&& first_entry_with(st1, content) is Some
            &&& first_entry_with(st2, content) == first_entry_with(st1, content)
        }),
{
    let st1 = reconciled(entries, s1, t1, cfg).0;
    let st2 = reconciled(st1, s2, t2, cfg).0;
    assert(content_unmatched(entries, all_unmatched(entries.len()), content));
    lemma_reconcile_first_entry(entries, all_unmatched(entries.len()), s1, t1, cfg, content);
    assert(first_entry_with(st1, content) is Some);
    assert(content_unmatched(st1, all_unmatched(st1.len()), content));
    lemma_reconcile_first_entry(st1, all_unmatched(st1.len()), s2, t2, cfg, content);
    lemma_first_unmatched_is_first_entry(st1, all_unmatched(st1.len()), content, 0);
    assert(st1.skip(0) =~= st1);
}

/// A snapshot holding only always-remove content reconciles to an empty
/// store, and reports a change exactly when the snapshot was nonempty.
proof fn lemma_filtered_snapshot_rec(
    entries: Seq<Entry>,
    matched: Seq<bool>,
    snapshot: Seq<Seq<char>>,
    now: u64,
    cfg: ConfigView,
)
    requires
        forall|i: int| 0 <= i < snapshot.len() ==> matches_any(
            cfg.always_remove,
            #[trigger] snapshot[i],
        ),
    ensures
        reconcile_spec(entries, matched, snapshot, now, cfg).0 == Seq::<Entry>::empty(),
        reconcile_spec(entries, matched, snapshot, now, cfg).1 == (snapshot.len() > 0),
    decreases snapshot.len(),
{
    if snapshot.len() > 0 {
        let tail = snapshot.drop_first();
        assert(forall|i: int| 0 <= i < tail.len() ==> matches_any(
            cfg.always_remove,
            #[trigger] tail[i],
        )) by {
            assert(forall|i: int| 0 <= i < tail.len() ==> #[trigger] tail[i] == snapshot[i + 1]);
        }
        lemma_filtered_snapshot_rec(entries, matched, tail, now, cfg);
    }
}

/// Filter idempotence: reconciling a snapshot whose every content matches an
/// always-remove pattern yields an empty store, and reports a change when the
/// snapshot was nonempty.
pub proof fn lemma_filtered_snapshot_yields_empty_store(
    entries: Seq<Entry>,
    snapshot: Seq<Seq<char>>,
    now: u64,
    cfg: ConfigView,
)
    requires
        forall|i: int| 0 <= i < snapshot.len() ==> matches_any(
            cfg.always_remove,
            #[trigger] snapshot[i],
        ),
    ensures
        reconciled(entries, snapshot, now, cfg).0 == Seq::<Entry>::empty(),
        reconciled(entries, snapshot, now, cfg).1 == (snapshot.len() > 0),
{
    lemma_filtered_snapshot_rec(entries, all_unmatched(entries.len()), snapshot, now, cfg);
}

/// An expiry pass keeps exactly the entries it began with that are kept:
/// a value survives when and only when it was there and is not yet expired
/// or is exempt.
pub proof fn lemma_expire_contains(entries: Seq<Entry>, now: u64, cfg: ConfigView, e: Entry)
    ensures
        expire_spec(entries, now, cfg).contains(e) <==> (entries.contains(e) && entry_kept(
            e,
            now,
            cfg,
        )),
    decreases entries.len(),
{
    if entries.len() == 0 {
    } else {
        let tail = entries.drop_first();
        lemma_expire_contains(tail, now, cfg, e);
        lemma_contains_head_or_tail(entries, e);
        if entry_kept(entries[0], now, cfg) {
            let r = seq![entries[0]] + expire_spec(tail, now, cfg);
            assert(r.len() > 0);
            assert(r[0] == entries[0]);
            assert(r.drop_first() =~= expire_spec(tail, now, cfg));
            lemma_contains_head_or_tail(r, e);
        }
    }
}

/// Never-remove override: an entry whose content matches a never-remove
/// pattern survives every expiry pass, whatever its age.
pub proof fn lemma_never_remove_override(entries: Seq<Entry>, now: u64, cfg: ConfigView, i: int)
    requires
        0 <= i < entries.len(),
        matches_any(cfg.never_remove, entries[i].content),
    ensures
        expire_spec(entries, now, cfg).contains(entries[i]),
{
    lemma_expire_contains(entries, now, cfg, entries[i]);
    assert(entries.contains(entries[i]));
}

/// The expiry threshold is inclusive: an entry whose age is exactly the
/// threshold is removed unless exempt, and one a second younger survives.
pub proof fn lemma_expiry_boundary(entries: Seq<Entry>, now: u64, cfg: ConfigView, i: int)
    requires
        0 <= i < entries.len(),
    ensures
        entries[i].first_seen + cfg.expiry == now && !matches_any(
            cfg.never_remove,
            entries[i].content,
        ) ==> !expire_spec(entries, now, cfg).contains(entries[i]),
        entries[i].first_seen + cfg.expiry == now + 1 ==> expire_spec(
            entries,
            now,
            cfg,
        ).contains(entries[i]),
{
    lemma_expire_contains(entries, now, cfg, entries[i]);
    assert(entries.contains(entries[i]));
}

} // verus!
