//! Per-IP sliding-window rate limiter for authentication endpoints.
//!
//! It tracks the moments of each address's recent requests. Moments are
//! monotonic clock readings in nanoseconds, supplied by the caller; addresses
//! are keyed by their 128-bit value (IPv4 addresses as IPv4-mapped IPv6).
use vstd::prelude::*;

use crate::error::AppError;

verus! {

/// Default sliding window for authentication endpoints: 60 seconds.
pub const DEFAULT_WINDOW_NANOS: u64 = 60_000_000_000;

/// Default maximum attempts per address inside the window.
pub const DEFAULT_MAX_REQUESTS: usize = 5;

/// Time elapsed from `t` to `now`, zero when `t` is later.
pub open spec fn elapsed(now: u64, t: u64) -> int {
    if now >= t {
        now - t
    } else {
        0
    }
}

/// The moments of `s` that are still inside the window at `now`, in order.
pub open spec fn recent(s: Seq<u64>, now: u64, window: u64) -> Seq<u64>
    decreases s.len(),
{
    if s.len() == 0 {
        s
    } else {
        let prev = recent(s.drop_last(), now, window);
        if elapsed(now, s.last()) <= window {
            prev.push(s.last())
        } else {
            prev
        }
    }
}

pub proof fn lemma_recent_len(s: Seq<u64>, now: u64, window: u64)
    ensures
        recent(s, now, window).len() <= s.len(),
    decreases s.len(),
{
    if s.len() > 0 {
        lemma_recent_len(s.drop_last(), now, window);
    }
}

/// Sliding-window limiter over request moments per address.
pub struct RateLimiter {
    window: u64,
    max_requests: usize,
    requests: Vec<(u128, Vec<u64>)>,
}

impl RateLimiter {
    /// The recorded moments of `ip`'s requests (none when it is unknown).
    pub closed spec fn history(&self, ip: u128) -> Seq<u64> {
        let k = self.slot(ip);
        if 0 <= k < self.requests@.len() {
            self.requests@[k].1@
        } else {
            Seq::empty()
        }
    }

    /// Index of `ip`'s entry, or the entry count when it has none.
    closed spec fn slot(&self, ip: u128) -> int {
        if exists|k: int| 0 <= k < self.requests@.len() && self.requests@[k].0 == ip {
            choose|k: int| 0 <= k < self.requests@.len() && self.requests@[k].0 == ip
        } else {
            self.requests@.len() as int
        }
    }

    pub closed spec fn window_spec(&self) -> u64 {
        self.window
    }

    pub closed spec fn max_spec(&self) -> usize {
        self.max_requests
    }

    /// Every address has one entry, holding at most `max_requests` moments.
    pub closed spec fn wf(&self) -> bool {
        &&& forall|i: int, j: int|
            0 <= i < j < self.requests@.len() ==> self.requests@[i].0 != self.requests@[j].0
        &&& forall|i: int|
            0 <= i < self.requests@.len() ==> #[trigger] self.requests@[i].1@.len()
                <= self.max_requests
    }

    pub fn new(window: u64, max_requests: usize) -> (r: Self)
        ensures
            r.wf(),
            r.window_spec() == window,
            r.max_spec() == max_requests,
            forall|ip: u128| #[trigger] r.history(ip) == Seq::<u64>::empty(),
    {
        RateLimiter { window, max_requests, requests: Vec::new() }
    }

    proof fn lemma_slot_of(&self, ip: u128, k: int)
        requires
            self.wf(),
            0 <= k < self.requests@.len(),
            self.requests@[k].0 == ip,
        ensures
            self.slot(ip) == k,
    {
        let j = choose|j: int| 0 <= j < self.requests@.len() && self.requests@[j].0 == ip;
        assert(j == k);
    }

    proof fn lemma_no_slot(&self, ip: u128)
        requires
            forall|k: int| 0 <= k < self.requests@.len() ==> self.requests@[k].0 != ip,
        ensures
            self.history(ip) == Seq::<u64>::empty(),
    {
    }

    /// Record a request from `ip` at `now`; rejected when `ip` already made
    /// `max_requests` requests inside the window. Moments that left the
    /// window are forgotten either way, and no other address is touched.
    pub fn check(&mut self, ip: u128, now: u64) -> (r: Result<(), AppError>)
        requires
            old(self).wf(),
        ensures
            final(self).wf(),
            final(self).window_spec() == old(self).window_spec(),
            final(self).max_spec() == old(self).max_spec(),
            ({
                let kept = recent(old(self).history(ip), now, old(self).window_spec());
                &&& (r is Ok <==> kept.len() < old(self).max_spec())
                &&& (r is Ok ==> final(self).history(ip) == kept.push(now))
                &&& (r is Err ==> final(self).history(ip) == kept && r matches Err(
                    AppError::RateLimited,
                ))
            }),
            forall|other: u128|
                other != ip ==> #[trigger] final(self).history(other) == old(self).history(other),
    {
        let ghost before = *self;
        let n = self.requests.len();
        // Locate the address's entry.
        let mut k: usize = 0;
        while k < n && self.requests[k].0 != ip
            invariant
                n == self.requests.len(),
                k <= n,
                forall|j: int| 0 <= j < k ==> self.requests@[j].0 != ip,
            decreases n - k,
        {
            k = k + 1;
        }
        let found = k < n;
        let ghost hist = self.history(ip);
        proof {
            if found {
                self.lemma_slot_of(ip, k as int);
            } else {
                self.lemma_no_slot(ip);
            }
        }
        // Forget the moments that left the window.
        let mut kept: Vec<u64> = Vec::new();
        if found {
            let list = &self.requests[k].1;
            assert(list@ == hist);
            let mut i: usize = 0;
            while i < list.len()
                invariant
                    list@ == hist,
                    i <= list.len(),
                    kept@ == recent(hist.take(i as int), now, self.window),
                decreases list.len() - i,
            {
                let t = list[i];
                assert(hist.take(i + 1).drop_last() =~= hist.take(i as int));
                assert(hist.take(i + 1).last() == t);
                let age: u64 = if now >= t {
                    now - t
                } else {
                    0
                };
                if age <= self.window {
                    kept.push(t);
                }
                i = i + 1;
            }
            assert(hist.take(list.len() as int) =~= hist);
        } else {
            assert(hist =~= Seq::<u64>::empty());
        }
        proof {
            lemma_recent_len(hist, now, self.window);
            if found {
                assert(hist.len() <= self.max_requests);
            }
        }
        let accepted = kept.len() < self.max_requests;
        if accepted {
            kept.push(now);
        }
        let ghost new_list = kept@;
        if found {
            self.requests.set(k, (ip, kept));
        } else {
            self.requests.push((ip, kept));
        }
        proof {
            let after = *self;
            assert forall|i: int, j: int|
                0 <= i < j < after.requests@.len() implies after.requests@[i].0
                != after.requests@[j].0 by {
                if !found && j == n {
                    assert(before.requests@[i].0 != ip);
                }
            }
            assert forall|i: int|
                0 <= i < after.requests@.len() implies #[trigger] after.requests@[i].1@.len()
                <= after.max_requests by {
                if !(i == k) {
                    assert(after.requests@[i] == before.requests@[i]);
                }
            }
            assert(after.wf());
            after.lemma_slot_of(ip, k as int);
            assert(after.history(ip) == new_list);
            assert forall|other: u128|
                other != ip implies #[trigger] after.history(other) == before.history(other) by {
                if exists|j: int| 0 <= j < before.requests@.len() && before.requests@[j].0 == other {
                    let j = choose|j: int|
                        0 <= j < before.requests@.len() && before.requests@[j].0 == other;
                    before.lemma_slot_of(other, j);
                    assert(j != k);
                    assert(after.requests@[j] == before.requests@[j]);
                    after.lemma_slot_of(other, j);
                } else {
                    assert forall|j: int| 0 <= j < after.requests@.len() implies after.requests@[j].0
                        != other by {
                        if j < before.requests@.len() && j != k {
                            assert(after.requests@[j] == before.requests@[j]);
                        }
                    }
                    after.lemma_no_slot(other);
                    before.lemma_no_slot(other);
                }
            }
        }
        if accepted {
            Ok(())
        } else {
            Err(AppError::RateLimited)
        }
    }
}

} // verus!
