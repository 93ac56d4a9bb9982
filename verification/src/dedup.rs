//! The deduplication stage: a sliding one-second window over
//! serialized events.
//!
//! The window remembers the text and publication instant of recently
//! published events.  A candidate identical to an unexpired entry is
//! suppressed; expired entries are purged on every observation, ahead
//! of the match.  A published candidate enters the window under the
//! instant of its observation.

use vstd::prelude::*;

verus! {

/// Width of the window in milliseconds.
pub const DEDUP_WINDOW_MS: u64 = 1000;

/// Holds when an entry published at `at` is still unexpired at `now`.
pub open spec fn entry_live(at: u64, now: u64) -> bool {
    at <= now && now - at < DEDUP_WINDOW_MS
}

/// The window entries that survive the purge at `now`.
pub open spec fn purged(entries: Seq<(Seq<char>, u64)>, now: u64) -> Seq<(Seq<char>, u64)>
    decreases entries.len(),
{
    if entries.len() == 0 {
        entries
    } else {
        let rest = purged(entries.drop_last(), now);
        if entry_live(entries.last().1, now) {
            rest.push(entries.last())
        } else {
            rest
        }
    }
}

/// Holds when the window holds an unexpired entry with this exact text.
pub open spec fn has_live_match(entries: Seq<(Seq<char>, u64)>, s: Seq<char>, now: u64) -> bool {
    exists|j: int| 0 <= j < entries.len() && entries[j].0 == s && entry_live(entries[j].1, now)
}

/// The window after observing `s` at `now`.
pub open spec fn after_observe(entries: Seq<(Seq<char>, u64)>, s: Seq<char>, now: u64) -> Seq<
    (Seq<char>, u64),
> {
    if has_live_match(entries, s, now) {
        purged(entries, now)
    } else {
        purged(entries, now).push((s, now))
    }
}

/// The sliding dedup window.
pub struct DedupWindow {
    entries: Vec<(String, u64)>,
}

impl DedupWindow {
    /// The remembered entries: text and publication instant of each.
    pub closed spec fn model(&self) -> Seq<(Seq<char>, u64)> {
        self.entries.deep_view()
    }

    /// A fresh, empty window.
    pub fn new() -> (r: DedupWindow)
        ensures
            r.model() == Seq::<(Seq<char>, u64)>::empty(),
    {
        let r = DedupWindow { entries: Vec::new() };
        proof {
            assert(r.model() =~= Seq::<(Seq<char>, u64)>::empty());
        }
        r
    }

    /// Observes a serialized event at instant `now_ms` and decides
    /// whether to publish it: publication is due exactly when no
    /// identical text was published within the window.  Expired entries
    /// are purged first, and a published event is remembered.
    pub fn observe(&mut self, s: &String, now_ms: u64) -> (publish: bool)
        ensures
            publish == !has_live_match(old(self).model(), s@, now_ms),
            final(self).model() == after_observe(old(self).model(), s@, now_ms),
    {
        let ghost entries = self.entries.deep_view();
        let mut kept: Vec<(String, u64)> = Vec::new();
        let mut found = false;
        let n: usize = self.entries.len();
        let mut i: usize = 0;
        proof {
            assert(entries.take(0) =~= Seq::<(Seq<char>, u64)>::empty());
            assert(kept.deep_view() =~= purged(entries.take(0), now_ms));
        }
        while i < n
            invariant
                i <= n,
                n == self.entries@.len(),
                entries == self.entries.deep_view(),
                kept.deep_view() == purged(entries.take(i as int), now_ms),
                found <==> has_live_match(entries.take(i as int), s@, now_ms),
            decreases n - i,
        {
            proof {
                assert(entries.take(i + 1).drop_last() =~= entries.take(i as int));
                assert(entries.take(i + 1).last() == entries[i as int]);
            }
            let ghost found_before = found;
            let at = self.entries[i].1;
            let live = at <= now_ms && now_ms - at < DEDUP_WINDOW_MS;
            proof {
                assert(entries[i as int].1 == self.entries@[i as int].1);
                assert(live == entry_live(entries[i as int].1, now_ms));
            }
            if live {
                let entry_text = self.entries[i].0.clone();
                if entry_text == *s {
                    found = true;
                    proof {
                        assert(entries[i as int].0 == s@);
                    }
                } else {
                    proof {
                        assert(entries[i as int].0 != s@);
                    }
                }
                let ghost prev = kept.deep_view();
                kept.push((entry_text, at));
                proof {
                    assert(kept.deep_view() =~~= prev.push(entries[i as int]));
                }
            }
            proof {
                let pre = entries.take(i as int);
                let post = entries.take(i + 1);
                assert(forall|j: int| 0 <= j < i ==> post[j] == pre[j]);
                if found_before {
                    let j = choose|j: int|
                        0 <= j < pre.len() && pre[j].0 == s@ && entry_live(pre[j].1, now_ms);
                    assert(post[j].0 == s@ && entry_live(post[j].1, now_ms));
                    assert(has_live_match(post, s@, now_ms));
                } else if found {
                    assert(post[i as int].0 == s@ && entry_live(post[i as int].1, now_ms));
                    assert(has_live_match(post, s@, now_ms));
                } else {
                    if has_live_match(post, s@, now_ms) {
                        let j = choose|j: int|
                            0 <= j < post.len() && post[j].0 == s@ && entry_live(
                                post[j].1,
                                now_ms,
                            );
                        if j < i {
                            assert(pre[j].0 == s@ && entry_live(pre[j].1, now_ms));
                            assert(has_live_match(pre, s@, now_ms));
                        } else {
                            assert(post[j] == entries[i as int]);
                        }
                        assert(false);
                    }
                }
            }
            i = i + 1;
        }
        proof {
            assert(entries.take(n as int) =~= entries);
        }
        if found {
            self.entries = kept;
            false
        } else {
            kept.push((s.clone(), now_ms));
            proof {
                assert(kept.deep_view() =~~= purged(entries, now_ms).push((s@, now_ms)));
            }
            self.entries = kept;
            true
        }
    }
}

/// Entries only ever leave or keep their place under a purge: every
/// surviving entry stood in the window before.
proof fn lemma_purged_membership(entries: Seq<(Seq<char>, u64)>, now: u64, x: (Seq<char>, u64))
    requires
        purged(entries, now).contains(x),
    ensures
        entries.contains(x),
        entry_live(x.1, now),
    decreases entries.len(),
{
    if entries.len() > 0 {
        let rest = purged(entries.drop_last(), now);
        if entry_live(entries.last().1, now) && x == entries.last() {
            assert(entries[entries.len() - 1] == x);
        } else {
            assert(rest.contains(x));
            lemma_purged_membership(entries.drop_last(), now, x);
            let j = choose|j: int| 0 <= j < entries.len() - 1 && entries.drop_last()[j] == x;
            assert(entries[j] == x);
        }
    }
}

/// The dedup window suppresses a repeat inside the window and admits
/// one beyond it: after a publication of `s` at `t0`, an identical
/// event within the window is suppressed, and — provided the window
/// held no entries from the future of `t0` — an identical event a full
/// window later is published again.
pub proof fn law_dedup_window(entries: Seq<(Seq<char>, u64)>, s: Seq<char>, t0: u64, t1: u64)
    requires
        !has_live_match(entries, s, t0),
        t0 <= t1,
        forall|j: int| 0 <= j < entries.len() ==> (#[trigger] entries[j]).1 <= t0,
    ensures
        t1 - t0 < DEDUP_WINDOW_MS ==> has_live_match(after_observe(entries, s, t0), s, t1),
        t1 - t0 >= DEDUP_WINDOW_MS ==> !has_live_match(after_observe(entries, s, t0), s, t1),
{
    let after = after_observe(entries, s, t0);
    assert(after == purged(entries, t0).push((s, t0)));
    if t1 - t0 < DEDUP_WINDOW_MS {
        assert(after[after.len() - 1] == (s, t0));
        assert(entry_live(t0, t1));
    } else {
        if has_live_match(after, s, t1) {
            let j = choose|j: int|
                0 <= j < after.len() && after[j].0 == s && entry_live(after[j].1, t1);
            if j == after.len() - 1 {
                assert(after[j] == (s, t0));
                assert(!entry_live(t0, t1));
            } else {
                assert(purged(entries, t0)[j] == after[j]);
                assert(purged(entries, t0).contains(after[j]));
                lemma_purged_membership(entries, t0, after[j]);
                assert(after[j].1 <= t0);
                assert(!entry_live(after[j].1, t1));
            }
            assert(false);
        }
    }
}

} // verus!
