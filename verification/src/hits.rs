//! Sliding-window counters against update spam: each key (a guild, a user) may be
//! updated a fixed number of times within a window of ten minutes.

use vstd::prelude::*;
use std::collections::HashMap;

verus! {

broadcast use vstd::std_specs::hash::group_hash_axioms;

/// Length of the window, in milliseconds (ten minutes).
pub const WINDOW_MS: i64 = 600_000;

/// Guild updates allowed per guild and window.
pub const GUILD_UPDATES_PER_WINDOW: usize = 5;

/// Profile updates allowed per user and window.
pub const PROFILE_UPDATES_PER_WINDOW: usize = 10;

/// Whether a hit at `t` is still inside the window that ends at `now`.
pub open spec fn within(now: int, window: int) -> spec_fn(i64) -> bool {
    |t: i64| now - t < window
}

/// The hits of `hits` still inside the window that ends at `now`, in their order.
pub open spec fn recent(hits: Seq<i64>, now: int, window: int) -> Seq<i64> {
    hits.filter(within(now, window))
}

/// Whether one more hit at `now` is allowed.
pub open spec fn hit_allowed(hits: Seq<i64>, now: int, window: int, limit: int) -> bool {
    recent(hits, now, window).len() < limit
}

/// The hits kept for a key after a request at `now`: the recent ones, and `now` itself
/// when the request was allowed.
pub open spec fn after_hit(hits: Seq<i64>, now: i64, window: int, limit: int) -> Seq<i64> {
    if hit_allowed(hits, now as int, window, limit) {
        recent(hits, now as int, window).push(now)
    } else {
        recent(hits, now as int, window)
    }
}

/// Timestamps of the allowed hits, by key.
pub struct HitLog {
    by_key: HashMap<i64, Vec<i64>>,
}

impl HitLog {
    /// The hits recorded for `key`, oldest first (none for a key never seen).
    pub closed spec fn hits_of(&self, key: i64) -> Seq<i64> {
        if self.by_key@.contains_key(key) {
            self.by_key@[key]@
        } else {
            Seq::empty()
        }
    }

    pub fn new() -> (log: HitLog)
        ensures
            forall|k: i64| #[trigger] log.hits_of(k) == Seq::<i64>::empty(),
    {
        HitLog { by_key: HashMap::new() }
    }

    /// Drops the hits of `key` older than the window, then records `now` when fewer than
    /// `limit` remain; answers whether it did.
    pub fn record_if_allowed(&mut self, key: i64, now: i64, limit: usize, window_ms: i64) -> (allowed: bool)
        ensures
            allowed == hit_allowed(old(self).hits_of(key), now as int, window_ms as int, limit as int),
            final(self).hits_of(key) == after_hit(old(self).hits_of(key), now, window_ms as int, limit as int),
            forall|k: i64| k != key ==> #[trigger] final(self).hits_of(k) == old(self).hits_of(k),
    {
        let ghost before = self.hits_of(key);
        let old_hits: Vec<i64> = match self.by_key.remove(&key) {
            Some(v) => v,
            None => Vec::new(),
        };
        assert(old_hits@ == before);
        let mut kept: Vec<i64> = Vec::new();
        let mut i: usize = 0;
        while i < old_hits.len()
            invariant
                0 <= i <= old_hits.len(),
                kept@ == recent(old_hits@.take(i as int), now as int, window_ms as int),
            decreases old_hits.len() - i,
        {
            let t = old_hits[i];
            proof {
                reveal(Seq::filter);
                assert(old_hits@.take(i + 1).drop_last() =~= old_hits@.take(i as int));
                assert(old_hits@.take(i + 1).last() == t);
            }
            if (now as i128) - (t as i128) < (window_ms as i128) {
                kept.push(t);
            }
            i = i + 1;
        }
        assert(old_hits@.take(old_hits.len() as int) =~= old_hits@);
        let allowed = kept.len() < limit;
        if allowed {
            kept.push(now);
        }
        self.by_key.insert(key, kept);
        allowed
    }
}

/// Allows at most five updates of guild `gid` per ten minutes, counting this one
/// when it is allowed.
pub fn guild_update_allowed(log: &mut HitLog, gid: i64, now: i64) -> (allowed: bool)
    ensures
        allowed == hit_allowed(old(log).hits_of(gid), now as int, WINDOW_MS as int, 5),
        final(log).hits_of(gid) == after_hit(old(log).hits_of(gid), now, WINDOW_MS as int, 5),
        forall|k: i64| k != gid ==> #[trigger] final(log).hits_of(k) == old(log).hits_of(k),
{
    log.record_if_allowed(gid, now, GUILD_UPDATES_PER_WINDOW, WINDOW_MS)
}

/// Allows at most ten profile updates of user `uid` per ten minutes, counting this one
/// when it is allowed.
pub fn profile_update_allowed(log: &mut HitLog, uid: i64, now: i64) -> (allowed: bool)
    ensures
        allowed == hit_allowed(old(log).hits_of(uid), now as int, WINDOW_MS as int, 10),
        final(log).hits_of(uid) == after_hit(old(log).hits_of(uid), now, WINDOW_MS as int, 10),
        forall|k: i64| k != uid ==> #[trigger] final(log).hits_of(k) == old(log).hits_of(k),
{
    log.record_if_allowed(uid, now, PROFILE_UPDATES_PER_WINDOW, WINDOW_MS)
}

/// With the same limit on every request, a key never holds more hits than the limit:
/// an allowed request leaves at most `limit`, a refused one drops hits and adds none.
pub proof fn law_hits_stay_within_limit(hits: Seq<i64>, now: i64, window: int, limit: int)
    requires
        hits.len() <= limit,
    ensures
        after_hit(hits, now, window, limit).len() <= limit,
        !hit_allowed(hits, now as int, window, limit) ==> after_hit(hits, now, window, limit).len()
            <= hits.len(),
{
    hits.lemma_filter_len(within(now as int, window));
}

/// The first request on a key is allowed whenever the limit is positive, and leaves that
/// one hit recorded.
pub proof fn law_first_hit_allowed(now: i64, window: int, limit: int)
    requires
        limit > 0,
    ensures
        hit_allowed(Seq::<i64>::empty(), now as int, window, limit),
        after_hit(Seq::<i64>::empty(), now, window, limit) == seq![now],
{
    reveal(Seq::filter);
    assert(recent(Seq::<i64>::empty(), now as int, window) =~= Seq::<i64>::empty());
    assert(Seq::<i64>::empty().push(now) =~= seq![now]);
}

/// The hits kept for one key after requests at `times`, one after the other, starting
/// from a key never seen.
pub open spec fn hits_after(times: Seq<i64>, window: int, limit: int) -> Seq<i64>
    decreases times.len(),
{
    if times.len() == 0 {
        Seq::empty()
    } else {
        after_hit(hits_after(times.drop_last(), window, limit), times.last(), window, limit)
    }
}

/// Whether the last of the requests at `times` is allowed, after the earlier ones.
pub open spec fn last_allowed(times: Seq<i64>, window: int, limit: int) -> bool {
    times.len() > 0 && hit_allowed(
        hits_after(times.drop_last(), window, limit),
        times.last() as int,
        window,
        limit,
    )
}

/// The times of the allowed requests among `times`, in order.
pub open spec fn granted(times: Seq<i64>, window: int, limit: int) -> Seq<i64>
    decreases times.len(),
{
    if times.len() == 0 {
        Seq::empty()
    } else if last_allowed(times, window, limit) {
        granted(times.drop_last(), window, limit).push(times.last())
    } else {
        granted(times.drop_last(), window, limit)
    }
}

/// Requests come at times that never go back.
pub open spec fn non_decreasing(times: Seq<i64>) -> bool {
    forall|i: int, j: int| 0 <= i <= j < times.len() ==> times[i] <= times[j]
}

/// Filtering by a condition that implies another: the second filter is redundant.
proof fn lemma_filter_within(s: Seq<i64>, wide: spec_fn(i64) -> bool, narrow: spec_fn(i64) -> bool)
    requires
        forall|t: i64| #[trigger] narrow(t) ==> wide(t),
    ensures
        s.filter(wide).filter(narrow) == s.filter(narrow),
    decreases s.len(),
{
    if s.len() > 0 {
        lemma_filter_within(s.drop_last(), wide, narrow);
        assert(s.drop_last().push(s.last()) =~= s);
        s.drop_last().lemma_filter_push(s.last(), wide);
        s.drop_last().lemma_filter_push(s.last(), narrow);
        s.drop_last().filter(wide).lemma_filter_push(s.last(), narrow);
    } else {
        reveal(Seq::filter);
    }
}

/// What a key holds after a run of requests at non-decreasing times: exactly the
/// allowed ones that are still inside the window ending at the last request.
proof fn lemma_hits_after_are_recent_grants(times: Seq<i64>, window: int, limit: int)
    requires
        non_decreasing(times),
        times.len() > 0,
        window > 0,
    ensures
        hits_after(times, window, limit) == recent(granted(times, window, limit), times.last() as int, window),
    decreases times.len(),
{
    let p = times.drop_last();
    let now = times.last();
    let in_window = within(now as int, window);
    let g = granted(p, window, limit);
    if p.len() == 0 {
        reveal(Seq::filter);
        assert(g =~= Seq::<i64>::empty());
        assert(hits_after(p, window, limit) =~= Seq::<i64>::empty());
        assert(recent(hits_after(p, window, limit), now as int, window) =~= g.filter(in_window));
    } else {
        assert forall|i: int, j: int| 0 <= i <= j < p.len() implies p[i] <= p[j] by {
            assert(p[i] == times[i] && p[j] == times[j]);
        }
        lemma_hits_after_are_recent_grants(p, window, limit);
        let before = within(p.last() as int, window);
        assert(p.last() <= now) by {
            assert(times[p.len() - 1] == p.last());
        }
        lemma_filter_within(g, before, in_window);
        assert(recent(hits_after(p, window, limit), now as int, window) == g.filter(in_window));
    }
    g.lemma_filter_push(now, in_window);
    assert(in_window(now));
    if last_allowed(times, window, limit) {
        assert(granted(times, window, limit) == g.push(now));
        assert(hits_after(times, window, limit) == g.filter(in_window).push(now));
    } else {
        assert(granted(times, window, limit) == g);
        assert(hits_after(times, window, limit) == g.filter(in_window));
    }
}

/// The limit over a run of requests on one key, at non-decreasing times: a request is
/// allowed exactly when fewer than `limit` of the earlier requests were allowed within
/// the window that ends at it; a refused request is recorded nowhere; and the allowed
/// requests within the window that ends at the last one never number more than `limit`.
pub proof fn law_sliding_window(times: Seq<i64>, window: int, limit: int)
    requires
        non_decreasing(times),
        times.len() > 0,
        window > 0,
        limit >= 0,
    ensures
        last_allowed(times, window, limit) <==> recent(
            granted(times.drop_last(), window, limit),
            times.last() as int,
            window,
        ).len() < limit,
        !last_allowed(times, window, limit) ==> granted(times, window, limit) == granted(
            times.drop_last(),
            window,
            limit,
        ),
        recent(granted(times, window, limit), times.last() as int, window).len() <= limit,
    decreases times.len(),
{
    let p = times.drop_last();
    let now = times.last();
    let in_window = within(now as int, window);
    if p.len() == 0 {
        reveal(Seq::filter);
        assert(recent(Seq::<i64>::empty(), now as int, window) =~= Seq::<i64>::empty());
    } else {
        assert forall|i: int, j: int| 0 <= i <= j < p.len() implies p[i] <= p[j] by {
            assert(p[i] == times[i] && p[j] == times[j]);
        }
        law_sliding_window(p, window, limit);
        lemma_hits_after_are_recent_grants(p, window, limit);
        let before = within(p.last() as int, window);
        assert(p.last() <= now) by {
            assert(times[p.len() - 1] == p.last());
        }
        lemma_filter_within(granted(p, window, limit), before, in_window);
        law_hits_stay_within_limit(hits_after(p, window, limit), now, window, limit);
    }
    lemma_hits_after_are_recent_grants(times, window, limit);
}

} // verus!
