//! Per-key fixed-window rate limiter.
//!
//! Each key owns a bucket holding the start of its current window and the
//! number of requests admitted since that start. A request is admitted when
//! the key has no bucket yet, when its window has rolled over, or when the
//! count is still below the maximum; the bucket is updated accordingly.

use vstd::prelude::*;
use crate::SessionKey;

verus! {

/// The window state kept for one key.
#[derive(Clone, Copy, PartialEq, Eq, Structural, Debug)]
pub struct RateBucket {
    pub key: SessionKey,
    pub window_start: u64,
    pub count: u32,
}

/// True when no two buckets in `s` share a key.
pub open spec fn rate_keys_unique(s: Seq<RateBucket>) -> bool {
    forall|i: int, j: int| 0 <= i < j < s.len() ==> s[i].key != s[j].key
}

/// True when some bucket in `s` has key `k`.
pub open spec fn rate_has_key(s: Seq<RateBucket>, k: SessionKey) -> bool {
    exists|i: int| 0 <= i < s.len() && s[i].key == k
}

/// The index of the bucket with key `k`, meaningful only when one exists.
pub open spec fn rate_index_of(s: Seq<RateBucket>, k: SessionKey) -> int {
    choose|i: int| 0 <= i < s.len() && s[i].key == k
}

/// The (window_start, count) pair stored for `k`, if any.
pub open spec fn rate_state_of(s: Seq<RateBucket>, k: SessionKey) -> Option<(u64, u32)> {
    if rate_has_key(s, k) {
        let i = rate_index_of(s, k);
        Some((s[i].window_start, s[i].count))
    } else {
        None
    }
}

/// Whether a request at `now` is admitted against bucket state `b`.
pub open spec fn bucket_admits(b: Option<(u64, u32)>, now: u64, max: u32, window: u64) -> bool {
    match b {
        None => true,
        Some((ws, c)) => now - ws > window || c < max,
    }
}

/// The bucket state after a request at `now` against state `b`.
pub open spec fn bucket_step(b: Option<(u64, u32)>, now: u64, max: u32, window: u64) -> Option<(u64, u32)> {
    match b {
        None => Some((now, 1u32)),
        Some((ws, c)) => if now - ws > window {
            Some((now, 1u32))
        } else if c >= max {
            Some((ws, c))
        } else {
            Some((ws, (c + 1) as u32))
        },
    }
}

/// The bucket state reached from `b` after one key requests at each time in
/// `times`, in order. Each step is the one `check_rate_limit` promises.
pub open spec fn run_from(b: Option<(u64, u32)>, times: Seq<u64>, max: u32, window: u64) -> Option<(u64, u32)>
    decreases times.len(),
{
    if times.len() == 0 {
        b
    } else {
        bucket_step(run_from(b, times.drop_last(), max, window), times.last(), max, window)
    }
}

/// The bucket state after the requests in `times` against a fresh limiter.
pub open spec fn run_bucket(times: Seq<u64>, max: u32, window: u64) -> Option<(u64, u32)> {
    run_from(None, times, max, window)
}

/// Whether request `i` of the run `times` is admitted.
pub open spec fn admitted_at(times: Seq<u64>, i: int, max: u32, window: u64) -> bool {
    bucket_admits(run_bucket(times.take(i), max, window), times[i], max, window)
}

/// The request times come in order.
pub open spec fn times_sorted(times: Seq<u64>) -> bool {
    forall|i: int, j: int| 0 <= i <= j < times.len() ==> times[i] <= times[j]
}

/// How many of the first `k` requests of one window the limiter counts:
/// all of them, up to the maximum.
pub open spec fn win_count(k: int, max: u32) -> u32 {
    if k <= max {
        k as u32
    } else {
        max
    }
}

/// After `k` requests that all fall within one window of the first, the
/// bucket holds the first request's time and counts `min(k, max)`.
proof fn lemma_window_run(times: Seq<u64>, max: u32, window: u64, k: int)
    requires
        1 <= max,
        times_sorted(times),
        1 <= k <= times.len(),
        forall|j: int| #![trigger times[j]] 0 <= j < times.len() ==> times[j] - times[0] <= window,
    ensures
        run_bucket(times.take(k), max, window) == Some((times[0], win_count(k, max))),
    decreases k,
{
    if k == 1 {
        assert(times.take(1).drop_last() =~= Seq::<u64>::empty());
        assert(times.take(1).last() == times[0]);
    } else {
        lemma_window_run(times, max, window, k - 1);
        assert(times.take(k).drop_last() =~= times.take(k - 1));
        assert(times.take(k).last() == times[k - 1]);
    }
}

/// Fixed-window guarantee: when one key's requests come at nondecreasing
/// times that all fall within one window of the first, exactly the first
/// `max` of them are admitted and every later one is denied.
pub proof fn lemma_rate_limit_window(times: Seq<u64>, max: u32, window: u64, i: int)
    requires
        1 <= max,
        times_sorted(times),
        forall|j: int| #![trigger times[j]] 0 <= j < times.len() ==> times[j] - times[0] <= window,
        0 <= i < times.len(),
    ensures
        admitted_at(times, i, max, window) <==> i < max,
{
    if i == 0 {
        assert(times.take(0) =~= Seq::<u64>::empty());
    } else {
        lemma_window_run(times, max, window, i);
    }
}

/// Roll-over guarantee: once a bucket's window has lapsed, the next request
/// is admitted no matter the count, and the bucket restarts at that time
/// with a count of one.
pub proof fn lemma_rate_limit_rollover(b: Option<(u64, u32)>, now: u64, max: u32, window: u64)
    requires
        b matches Some(sc) ==> now - sc.0 > window,
    ensures
        bucket_admits(b, now, max, window),
        bucket_step(b, now, max, window) == Some((now, 1u32)),
{
}

/// Per-key fixed-window counter; admits or rejects requests.
pub struct RateLimiter {
    buckets: Vec<RateBucket>,
    max_requests: u32,
    time_window: u64,
}

impl RateLimiter {
    /// All internal buckets, one per key.
    pub closed spec fn buckets_view(self) -> Seq<RateBucket> {
        self.buckets@
    }

    /// The largest number of requests admitted per key within one window.
    pub closed spec fn spec_max_requests(self) -> u32 {
        self.max_requests
    }

    /// The window length, in milliseconds.
    pub closed spec fn spec_time_window(self) -> u64 {
        self.time_window
    }

    /// The bucket state currently stored for `k`, if any.
    pub open spec fn state_of(self, k: SessionKey) -> Option<(u64, u32)> {
        rate_state_of(self.buckets_view(), k)
    }

    /// Internal consistency: each key owns at most one bucket.
    pub open spec fn wf(self) -> bool {
        rate_keys_unique(self.buckets_view())
    }

    /// A fresh limiter admitting `max_requests` per key every `time_window` milliseconds.
    pub fn new(max_requests: u32, time_window: u64) -> (r: RateLimiter)
        ensures
            r.wf(),
            r.spec_max_requests() == max_requests,
            r.spec_time_window() == time_window,
            forall|k: SessionKey| r.state_of(k) is None,
    {
        RateLimiter { buckets: Vec::new(), max_requests, time_window }
    }

    /// Admits or rejects a request from `key` at time `now`, updating the
    /// key's bucket by the fixed-window rule. No other key's bucket changes.
    pub fn check_rate_limit(&mut self, key: SessionKey, now: u64) -> (admitted: bool)
        requires
            old(self).wf(),
        ensures
            final(self).wf(),
            final(self).spec_max_requests() == old(self).spec_max_requests(),
            final(self).spec_time_window() == old(self).spec_time_window(),
            admitted == bucket_admits(
                old(self).state_of(key), now,
                old(self).spec_max_requests(), old(self).spec_time_window()),
            final(self).state_of(key) == bucket_step(
                old(self).state_of(key), now,
                old(self).spec_max_requests(), old(self).spec_time_window()),
            forall|k2: SessionKey| k2 != key ==> final(self).state_of(k2) == old(self).state_of(k2),
    {
        let n = self.buckets.len();
        let mut i: usize = 0;
        while i < n
            invariant
                0 <= i <= n,
                n == self.buckets@.len(),
                self.buckets@ == old(self).buckets@,
                self.max_requests == old(self).max_requests,
                self.time_window == old(self).time_window,
                rate_keys_unique(self.buckets@),
                forall|j: int| 0 <= j < i ==> self.buckets@[j].key != key,
            decreases n - i,
        {
            if self.buckets[i].key == key {
                let b = self.buckets[i];
                proof {
                    lemma_rate_index_is(self.buckets@, key, i as int);
                }
                if now >= b.window_start && now - b.window_start > self.time_window {
                    self.buckets.set(i, RateBucket { key, window_start: now, count: 1 });
                    proof {
                        lemma_rate_set_same_key(old(self).buckets@, self.buckets@, key, i as int);
                    }
                    return true;
                } else if b.count >= self.max_requests {
                    return false;
                } else {
                    self.buckets.set(i, RateBucket { key, window_start: b.window_start, count: b.count + 1 });
                    proof {
                        lemma_rate_set_same_key(old(self).buckets@, self.buckets@, key, i as int);
                    }
                    return true;
                }
            }
            i = i + 1;
        }
        self.buckets.push(RateBucket { key, window_start: now, count: 1 });
        proof {
            let s0 = old(self).buckets@;
            let s1 = self.buckets@;
            assert(!rate_has_key(s0, key));
            assert(s1[s0.len() as int].key == key);
            assert(rate_keys_unique(s1)) by {
                assert forall|p: int, q: int| 0 <= p < q < s1.len() implies s1[p].key != s1[q].key by {
                    if q < s0.len() {
                        assert(s1[p] == s0[p] && s1[q] == s0[q]);
                    } else {
                        assert(s1[p] == s0[p]);
                        assert(s1[q].key == key);
                        if s0[p].key == key {
                            assert(rate_has_key(s0, key));
                        }
                    }
                }
            }
            lemma_rate_index_is(s1, key, s0.len() as int);
            assert forall|k2: SessionKey| k2 != key implies rate_state_of(s1, k2) == rate_state_of(s0, k2) by {
                lemma_rate_push_other_key(s0, s1, key, k2);
            }
        }
        true
    }
}

/// With unique keys, the bucket holding key `k` at index `i` is the one that
/// `rate_index_of` picks.
proof fn lemma_rate_index_is(s: Seq<RateBucket>, k: SessionKey, i: int)
    requires
        rate_keys_unique(s),
        0 <= i < s.len(),
        s[i].key == k,
    ensures
        rate_has_key(s, k),
        rate_index_of(s, k) == i,
{
    assert(rate_has_key(s, k));
    let j = rate_index_of(s, k);
    assert(0 <= j < s.len() && s[j].key == k);
    if i < j {
        assert(s[i].key != s[j].key);
    } else if j < i {
        assert(s[j].key != s[i].key);
    }
}

/// Replacing the bucket at the index of key `k` with another bucket for `k`
/// leaves every other key's state unchanged.
proof fn lemma_rate_set_same_key(s0: Seq<RateBucket>, s1: Seq<RateBucket>, k: SessionKey, i: int)
    requires
        rate_keys_unique(s0),
        0 <= i < s0.len(),
        s0[i].key == k,
        s1 == s0.update(i, s1[i]),
        s1.len() == s0.len(),
        s1[i].key == k,
    ensures
        rate_keys_unique(s1),
        rate_has_key(s1, k),
        rate_index_of(s1, k) == i,
        rate_state_of(s1, k) == Some((s1[i].window_start, s1[i].count)),
        forall|k2: SessionKey| k2 != k ==> rate_state_of(s1, k2) == rate_state_of(s0, k2),
{
    assert(rate_keys_unique(s1)) by {
        assert forall|p: int, q: int| 0 <= p < q < s1.len() implies s1[p].key != s1[q].key by {
            assert(s1[p] == if p == i { s1[i] } else { s0[p] });
            assert(s1[q] == if q == i { s1[i] } else { s0[q] });
            if p == i {
                lemma_rate_index_is(s0, k, i);
                assert(s0[q].key != k) by {
                    if s0[q].key == k {
                        lemma_rate_index_is(s0, k, q);
                    }
                }
            } else if q == i {
                assert(s0[p].key != k) by {
                    if s0[p].key == k {
                        lemma_rate_index_is(s0, k, p);
                    }
                }
            }
        }
    }
    lemma_rate_index_is(s1, k, i);
    assert forall|k2: SessionKey| k2 != k implies rate_state_of(s1, k2) == rate_state_of(s0, k2) by {
        if rate_has_key(s0, k2) {
            let j = rate_index_of(s0, k2);
            assert(j != i);
            assert(s1[j] == s0[j]);
            lemma_rate_index_is(s1, k2, j);
        } else {
            if rate_has_key(s1, k2) {
                let j = rate_index_of(s1, k2);
                assert(j != i);
                assert(s0[j].key == k2);
            }
        }
    }
}

/// Pushing a bucket for a fresh key leaves every other key's state unchanged.
proof fn lemma_rate_push_other_key(s0: Seq<RateBucket>, s1: Seq<RateBucket>, k: SessionKey, k2: SessionKey)
    requires
        rate_keys_unique(s0),
        !rate_has_key(s0, k),
        s1.len() == s0.len() + 1,
        s1 == s0.push(s1.last()),
        s1.last().key == k,
        k2 != k,
    ensures
        rate_state_of(s1, k2) == rate_state_of(s0, k2),
{
    if rate_has_key(s0, k2) {
        let j = rate_index_of(s0, k2);
        assert(s1[j] == s0[j]);
        assert(rate_keys_unique(s1)) by {
            assert forall|p: int, q: int| 0 <= p < q < s1.len() implies s1[p].key != s1[q].key by {
                if q < s0.len() {
                    assert(s1[p] == s0[p] && s1[q] == s0[q]);
                } else {
                    assert(s1[p] == s0[p]);
                    assert(s1[q].key == k);
                    if s0[p].key == k {
                        assert(rate_has_key(s0, k));
                    }
                }
            }
        }
        lemma_rate_index_is(s1, k2, j);
    } else {
        if rate_has_key(s1, k2) {
            let j = rate_index_of(s1, k2);
            if j < s0.len() {
                assert(s0[j].key == k2);
            } else {
                assert(s1[j].key == k);
            }
        }
    }
}

} // verus!
