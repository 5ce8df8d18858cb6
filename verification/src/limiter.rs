//! A sliding-window rate limiter keyed by text.

use vstd::prelude::*;
use vstd::string::StringExecFns;
use crate::text::same_text;

verus! {

/// The times of `times` that are later than `cutoff`, in order.
pub open spec fn recent(times: Seq<i64>, cutoff: int) -> Seq<i64>
    decreases times.len(),
{
    if times.len() == 0 {
        Seq::empty()
    } else if times.last() > cutoff {
        recent(times.drop_last(), cutoff).push(times.last())
    } else {
        recent(times.drop_last(), cutoff)
    }
}

/// Admits at most a fixed number of requests per key within a sliding
/// window of time. Times are milliseconds on the caller's clock.
#[derive(Debug, Clone)]
pub struct RateLimiter {
    keys: Vec<String>,
    logs: Vec<Vec<i64>>,
    max_requests: usize,
    window_ms: i64,
}

/// Copies the times that are later than `cutoff`.
fn keep_recent(times: &Vec<i64>, cutoff: i128) -> (kept: Vec<i64>)
    ensures
        kept@ == recent(times@, cutoff as int),
{
    let mut kept: Vec<i64> = Vec::new();
    let mut i: usize = 0;
    assert(times@.take(0) == Seq::<i64>::empty());
    while i < times.len()
        invariant
            i <= times.len(),
            kept@ == recent(times@.take(i as int), cutoff as int),
        decreases times.len() - i,
    {
        proof {
            let next = times@.take(i + 1);
            assert(next.drop_last() == times@.take(i as int));
        }
        if times[i] as i128 > cutoff {
            kept.push(times[i]);
        }
        i = i + 1;
    }
    assert(times@.take(times@.len() as int) == times@);
    kept
}

impl RateLimiter {
    /// Every key is listed once, with its log.
    pub closed spec fn wf(&self) -> bool {
        &&& self.keys@.len() == self.logs@.len()
        &&& forall|i: int, j: int|
            0 <= i < j < self.keys@.len() ==> self.keys@[i]@ != self.keys@[j]@
    }

    /// Whether the limiter holds a log for `key`.
    pub closed spec fn is_tracked(&self, key: Seq<char>) -> bool {
        exists|i: int| 0 <= i < self.keys@.len() && self.keys@[i]@ == key
    }

    /// The times of the requests admitted for `key` that the limiter still
    /// holds, oldest first; empty for a key without a log.
    pub closed spec fn history(&self, key: Seq<char>) -> Seq<i64> {
        if self.is_tracked(key) {
            self.logs@[choose|i: int| 0 <= i < self.keys@.len() && self.keys@[i]@ == key]@
        } else {
            Seq::empty()
        }
    }

    /// Requests admitted per key within one window.
    pub closed spec fn request_limit(&self) -> usize {
        self.max_requests
    }

    /// Length of the window in milliseconds.
    pub closed spec fn window_length(&self) -> i64 {
        self.window_ms
    }

    /// The time before which requests no longer count at time `now_ms`.
    pub open spec fn cutoff(&self, now_ms: int) -> int {
        now_ms - self.window_length()
    }

    proof fn lemma_history_at(&self, i: int)
        requires
            self.wf(),
            0 <= i < self.keys@.len(),
        ensures
            self.is_tracked(self.keys@[i]@),
            self.history(self.keys@[i]@) == self.logs@[i]@,
    {
        let key = self.keys@[i]@;
        let chosen = choose|k: int| 0 <= k < self.keys@.len() && self.keys@[k]@ == key;
        assert(chosen == i);
    }

    /// A limiter that admits `max_requests` requests per key within
    /// `window_ms` milliseconds and has seen none yet.
    pub fn new(max_requests: usize, window_ms: i64) -> (limiter: RateLimiter)
        ensures
            limiter.wf(),
            limiter.request_limit() == max_requests,
            limiter.window_length() == window_ms,
            forall|key: Seq<char>| !limiter.is_tracked(key),
            forall|key: Seq<char>| limiter.history(key) == Seq::<i64>::empty(),
    {
        RateLimiter { keys: Vec::new(), logs: Vec::new(), max_requests, window_ms }
    }

    /// Finds the log of `key`.
    fn find(&self, key: &str) -> (found: Option<usize>)
        requires
            self.wf(),
        ensures
            match found {
                Some(i) => i < self.keys@.len() && self.keys@[i as int]@ == key@,
                None => !self.is_tracked(key@),
            },
    {
        let mut i: usize = 0;
        while i < self.keys.len()
            invariant
                i <= self.keys@.len(),
                forall|j: int| 0 <= j < i ==> self.keys@[j]@ != key@,
            decreases self.keys@.len() - i,
        {
            if same_text(self.keys[i].as_str(), key) {
                return Some(i);
            }
            i = i + 1;
        }
        None
    }

    /// Decides whether a request for `key` at time `now_ms` is admitted,
    /// and records it if it is. Requests of the key that are not later
    /// than the cutoff are forgotten first; the request is admitted where
    /// fewer than the limit remain.
    pub fn check_rate_limit(&mut self, key: &str, now_ms: i64) -> (admitted: bool)
        requires
            old(self).wf(),
        ensures
            final(self).wf(),
            final(self).request_limit() == old(self).request_limit(),
            final(self).window_length() == old(self).window_length(),
            admitted == (recent(old(self).history(key@), old(self).cutoff(now_ms as int)).len()
                < old(self).request_limit()),
            final(self).is_tracked(key@),
            final(self).history(key@) == if admitted {
                recent(old(self).history(key@), old(self).cutoff(now_ms as int)).push(now_ms)
            } else {
                recent(old(self).history(key@), old(self).cutoff(now_ms as int))
            },
            forall|other: Seq<char>|
                other != key@ ==> final(self).is_tracked(other) == old(self).is_tracked(other)
                    && final(self).history(other) == old(self).history(other),
    {
        let cutoff: i128 = now_ms as i128 - self.window_ms as i128;
        let position: usize = match self.find(key) {
            Some(i) => {
                proof {
                    self.lemma_history_at(i as int);
                }
                i
            },
            None => {
                self.keys.push(String::from_str(key));
                self.logs.push(Vec::new());
                proof {
                    assert forall|other: Seq<char>| other != key@ implies self.is_tracked(other)
                        == old(self).is_tracked(other) && self.history(other) == old(
                        self,
                    ).history(other) by {
                        if old(self).is_tracked(other) {
                            let k = choose|k: int|
                                0 <= k < old(self).keys@.len() && old(self).keys@[k]@ == other;
                            assert(self.keys@[k]@ == other);
                            self.lemma_history_at(k);
                        } else if self.is_tracked(other) {
                            let k = choose|k: int|
                                0 <= k < self.keys@.len() && self.keys@[k]@ == other;
                            assert(k < old(self).keys@.len());
                            assert(old(self).keys@[k]@ == other);
                        }
                    }
                    self.lemma_history_at(self.keys@.len() - 1);
                }
                self.keys.len() - 1
            },
        };
        let ghost middle = *self;
        assert(middle.history(key@) == old(self).history(key@));
        let mut kept = keep_recent(&self.logs[position], cutoff);
        let admitted = kept.len() < self.max_requests;
        if admitted {
            kept.push(now_ms);
        }
        self.logs.set(position, kept);
        proof {
            self.lemma_history_at(position as int);
            assert forall|other: Seq<char>| other != key@ implies self.is_tracked(other)
                == middle.is_tracked(other) && self.history(other) == middle.history(other) by {
                if middle.is_tracked(other) {
                    let k = choose|k: int| 0 <= k < middle.keys@.len() && middle.keys@[k]@ == other;
                    self.lemma_history_at(k);
                    middle.lemma_history_at(k);
                }
            }
        }
        admitted
    }

    /// Forgets, at time `now_ms`, every request that is not later than the
    /// cutoff, and every key that has no request left.
    pub fn cleanup_old_entries(&mut self, now_ms: i64)
        requires
            old(self).wf(),
        ensures
            final(self).wf(),
            final(self).request_limit() == old(self).request_limit(),
            final(self).window_length() == old(self).window_length(),
            forall|key: Seq<char>|
                final(self).history(key) == recent(
                    old(self).history(key),
                    old(self).cutoff(now_ms as int),
                ),
            forall|key: Seq<char>|
                final(self).is_tracked(key) == (old(self).is_tracked(key) && recent(
                    old(self).history(key),
                    old(self).cutoff(now_ms as int),
                ).len() > 0),
    {
        let cutoff: i128 = now_ms as i128 - self.window_ms as i128;
        let mut old_keys: Vec<String> = Vec::new();
        let mut old_logs: Vec<Vec<i64>> = Vec::new();
        std::mem::swap(&mut self.keys, &mut old_keys);
        std::mem::swap(&mut self.logs, &mut old_logs);
        let ghost before = *old(self);
        let ghost mut source: Seq<int> = Seq::empty();
        let mut j: usize = 0;
        for key in it: old_keys
            invariant
                before.wf(),
                it.seq() == before.keys@,
                old_logs@ == before.logs@,
                j == it.index(),
                cutoff == before.cutoff(now_ms as int),
                self.max_requests == before.max_requests,
                self.window_ms == before.window_ms,
                self.keys@.len() == self.logs@.len(),
                source.len() == self.keys@.len(),
                forall|m: int|
                    0 <= m < source.len() ==> 0 <= #[trigger] source[m] < j && self.keys@[m]@
                        == before.keys@[source[m]]@ && self.logs@[m]@ == recent(
                        before.logs@[source[m]]@,
                        cutoff as int,
                    ) && self.logs@[m]@.len() > 0,
                forall|m: int, n: int|
                    0 <= m < n < source.len() ==> #[trigger] source[m] < #[trigger] source[n],
                forall|k: int|
                    0 <= k < j && recent(before.logs@[k]@, cutoff as int).len() > 0 ==> exists|
                        m: int,
                    |
                        0 <= m < source.len() && #[trigger] source[m] == k,
        {
            let kept = keep_recent(&old_logs[j], cutoff);
            if kept.len() > 0 {
                self.keys.push(key);
                self.logs.push(kept);
                proof {
                    let ghost earlier = source;
                    source = source.push(j as int);
                    assert forall|k: int|
                        0 <= k < j + 1 && recent(before.logs@[k]@, cutoff as int).len()
                            > 0 implies exists|m: int|
                        0 <= m < source.len() && #[trigger] source[m] == k by {
                        if k < j {
                            let m = choose|m: int|
                                0 <= m < earlier.len() && #[trigger] earlier[m] == k;
                            assert(source[m] == k);
                        } else {
                            assert(source[source.len() - 1] == k);
                        }
                    }
                }
            }
            assert(j < old_logs.len());
            j = j + 1;
        }
        proof {
            assert forall|a: int, b: int| 0 <= a < b < self.keys@.len() implies self.keys@[a]@
                != self.keys@[b]@ by {
                assert(source[a] < source[b]);
            }
            assert forall|key: Seq<char>|
                self.history(key) == recent(before.history(key), cutoff as int) && self.is_tracked(
                    key,
                ) == (before.is_tracked(key) && recent(before.history(key), cutoff as int).len()
                    > 0) by {
                if self.is_tracked(key) {
                    let m = choose|m: int| 0 <= m < self.keys@.len() && self.keys@[m]@ == key;
                    self.lemma_history_at(m);
                    before.lemma_history_at(source[m]);
                } else if before.is_tracked(key) {
                    let k = choose|k: int| 0 <= k < before.keys@.len() && before.keys@[k]@ == key;
                    before.lemma_history_at(k);
                    if recent(before.logs@[k]@, cutoff as int).len() > 0 {
                        let m = choose|m: int| 0 <= m < source.len() && #[trigger] source[m] == k;
                        assert(self.keys@[m]@ == key);
                    }
                } else {
                    assert(recent(Seq::<i64>::empty(), cutoff as int) == Seq::<i64>::empty());
                }
            }
        }
    }
}

} // verus!
