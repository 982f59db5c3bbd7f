//! Replays of the rate-limit decisions over a sequence of request times, and
//! the bounds they keep.
use vstd::prelude::*;

use crate::rate_limiter::bucket_verdict;
use crate::rate_limiter::max_tokens;
use crate::rate_limiter::sliding_verdict;
use crate::rate_limiter::BucketState;

verus! {

/// The request times are in non-decreasing order.
pub open spec fn nondecreasing(times: Seq<u64>) -> bool {
    forall|i: int, j: int| 0 <= i <= j < times.len() ==> times[i] <= times[j]
}

/// The members of `log` with a score above `cutoff`, in order.
pub open spec fn after(log: Seq<u64>, cutoff: int) -> Seq<u64>
    decreases log.len(),
{
    if log.len() == 0 {
        log
    } else if log.last() > cutoff {
        after(log.drop_last(), cutoff).push(log.last())
    } else {
        after(log.drop_last(), cutoff)
    }
}

/// Number of members of `s` in the interval `(lo, hi]`.
pub open spec fn count_in(s: Seq<u64>, lo: int, hi: int) -> nat
    decreases s.len(),
{
    if s.len() == 0 {
        0
    } else {
        count_in(s.drop_last(), lo, hi) + if lo < s.last() && s.last() <= hi {
            1nat
        } else {
            0nat
        }
    }
}

/// One request at `now` against the stored window: members that left the
/// window are removed, and `now` is added when the request is admitted.
pub open spec fn sliding_step(log: Seq<u64>, now: u64, max_requests: i32, window_seconds: i32) -> (Seq<u64>, bool) {
    let kept = after(log, now - window_seconds);
    let oldest = if kept.len() > 0 {
        Some(kept[0])
    } else {
        None
    };
    if sliding_verdict(now, kept.len() as int, oldest, max_requests, window_seconds).allowed {
        (kept.push(now), true)
    } else {
        (kept, false)
    }
}

/// Stored window and admitted request times after serving `times` in order.
pub open spec fn sliding_replay(times: Seq<u64>, max_requests: i32, window_seconds: i32) -> (Seq<u64>, Seq<u64>)
    decreases times.len(),
{
    if times.len() == 0 {
        (Seq::empty(), Seq::empty())
    } else {
        let (log, admitted) = sliding_replay(times.drop_last(), max_requests, window_seconds);
        let (next, ok) = sliding_step(log, times.last(), max_requests, window_seconds);
        (next, if ok {
            admitted.push(times.last())
        } else {
            admitted
        })
    }
}

proof fn lemma_after_after(s: Seq<u64>, c1: int, c2: int)
    requires
        c1 <= c2,
    ensures
        after(after(s, c1), c2) == after(s, c2),
    decreases s.len(),
{
    if s.len() > 0 {
        lemma_after_after(s.drop_last(), c1, c2);
        if s.last() > c1 {
            assert(after(s, c1).drop_last() == after(s.drop_last(), c1));
        }
    }
}

proof fn lemma_after_len_mono(s: Seq<u64>, c1: int, c2: int)
    requires
        c1 <= c2,
    ensures
        after(s, c2).len() <= after(s, c1).len(),
    decreases s.len(),
{
    if s.len() > 0 {
        lemma_after_len_mono(s.drop_last(), c1, c2);
    }
}

proof fn lemma_count_is_after(s: Seq<u64>, lo: int, hi: int)
    requires
        forall|i: int| 0 <= i < s.len() ==> s[i] <= hi,
    ensures
        count_in(s, lo, hi) == after(s, lo).len(),
    decreases s.len(),
{
    if s.len() > 0 {
        assert forall|i: int| 0 <= i < s.drop_last().len() implies s.drop_last()[i] <= hi by {
            assert(s[i] <= hi);
        }
        lemma_count_is_after(s.drop_last(), lo, hi);
    }
}

proof fn lemma_sliding_invariant(times: Seq<u64>, max_requests: i32, window_seconds: i32)
    requires
        nondecreasing(times),
        max_requests > 0,
        window_seconds > 0,
    ensures
        ({
            let (log, admitted) = sliding_replay(times, max_requests, window_seconds);
            &&& times.len() == 0 ==> log.len() == 0 && admitted.len() == 0
            &&& times.len() > 0 ==> log == after(admitted, times.last() - window_seconds)
            &&& forall|i: int| 0 <= i < admitted.len() ==> admitted[i] <= times.last()
            &&& forall|x: int| #[trigger] count_in(admitted, x - window_seconds, x) <= max_requests
        }),
    decreases times.len(),
{
    if times.len() > 0 {
        let prev = times.drop_last();
        assert(nondecreasing(prev)) by {
            assert forall|i: int, j: int| 0 <= i <= j < prev.len() implies prev[i] <= prev[j] by {
                assert(prev[i] == times[i] && prev[j] == times[j]);
            }
        }
        lemma_sliding_invariant(prev, max_requests, window_seconds);
        let (log, admitted) = sliding_replay(prev, max_requests, window_seconds);
        let now = times.last();
        let cut = now - window_seconds;
        let kept = after(log, cut);
        if prev.len() > 0 {
            assert(prev.last() <= now) by {
                assert(prev.last() == times[prev.len() - 1]);
            }
            lemma_after_after(admitted, prev.last() - window_seconds, cut);
        }
        assert(kept == after(admitted, cut));
        assert forall|i: int| 0 <= i < admitted.len() implies admitted[i] <= now by {
            if prev.len() > 0 {
                assert(prev.last() == times[prev.len() - 1]);
            }
        }
        let (next, ok) = sliding_step(log, now, max_requests, window_seconds);
        let adm2 = if ok {
            admitted.push(now)
        } else {
            admitted
        };
        assert(sliding_replay(times, max_requests, window_seconds) == (next, adm2));
        if ok {
            assert(kept.len() < max_requests);
            assert(adm2.drop_last() == admitted);
            assert(after(adm2, cut) == kept.push(now));
            assert forall|x: int| #[trigger] count_in(adm2, x - window_seconds, x) <= max_requests by {
                assert(adm2.last() == now);
                assert(count_in(adm2, x - window_seconds, x) == count_in(admitted, x - window_seconds, x)
                    + if x - window_seconds < now && now <= x { 1nat } else { 0nat });
                if x - window_seconds < now && now <= x {
                    assert forall|i: int| 0 <= i < admitted.len() implies admitted[i] <= x by {}
                    lemma_count_is_after(admitted, x - window_seconds, x);
                    lemma_after_len_mono(admitted, cut, x - window_seconds);
                } else {
                    assert(count_in(admitted, x - window_seconds, x) <= max_requests);
                }
            }
        }
    }
}

/// Sliding window: with one limit and requests served in time order, every
/// interval of `window_seconds` seconds `(x - window_seconds, x]` holds at
/// most `max_requests` admitted requests.
pub proof fn lemma_sliding_window_bound(times: Seq<u64>, max_requests: i32, window_seconds: i32, x: int)
    requires
        nondecreasing(times),
        max_requests > 0,
        window_seconds > 0,
    ensures
        count_in(sliding_replay(times, max_requests, window_seconds).1, x - window_seconds, x)
            <= max_requests,
{
    lemma_sliding_invariant(times, max_requests, window_seconds);
}

/// One request at `now` against the stored bucket: the new state is stored
/// only when the request is admitted.
pub open spec fn bucket_step(stored: Option<BucketState>, now: u64, max_requests: i32, window_seconds: i32, burst_size: i32) -> (Option<BucketState>, bool) {
    let d = bucket_verdict(now, stored, max_requests, window_seconds, burst_size);
    if d.decision.allowed {
        (d.store, true)
    } else {
        (stored, false)
    }
}

/// Stored bucket and number of admitted requests after serving `times` in order.
pub open spec fn bucket_replay(times: Seq<u64>, max_requests: i32, window_seconds: i32, burst_size: i32) -> (Option<BucketState>, nat)
    decreases times.len(),
{
    if times.len() == 0 {
        (None, 0)
    } else {
        let (st, n) = bucket_replay(times.drop_last(), max_requests, window_seconds, burst_size);
        let (next, ok) = bucket_step(st, times.last(), max_requests, window_seconds, burst_size);
        (next, if ok {
            n + 1
        } else {
            n
        })
    }
}

proof fn lemma_bucket_invariant(times: Seq<u64>, max_requests: i32, window_seconds: i32, burst_size: i32)
    requires
        nondecreasing(times),
        max_requests > 0,
        window_seconds > 0,
        burst_size > 0,
        forall|i: int| 0 <= i < times.len() ==> times[i] + max_tokens(max_requests, burst_size) * window_seconds <= u64::MAX,
    ensures
        ({
            let (st, n) = bucket_replay(times, max_requests, window_seconds, burst_size);
            &&& st is None ==> n == 0
            &&& st matches Some(s) ==> {
                &&& times.len() > 0
                &&& times[0] <= s.last_refill <= times.last()
                &&& s.tokens >= 0
                &&& window_seconds * (s.tokens + n) <= window_seconds * max_tokens(max_requests, burst_size)
                    + (s.last_refill - times[0]) * max_requests
            }
        }),
    decreases times.len(),
{
    if times.len() > 0 {
        let prev = times.drop_last();
        assert(nondecreasing(prev)) by {
            assert forall|i: int, j: int| 0 <= i <= j < prev.len() implies prev[i] <= prev[j] by {
                assert(prev[i] == times[i] && prev[j] == times[j]);
            }
        }
        assert forall|i: int| 0 <= i < prev.len() implies prev[i] + max_tokens(max_requests, burst_size) * window_seconds <= u64::MAX by {
            assert(prev[i] == times[i]);
        }
        lemma_bucket_invariant(prev, max_requests, window_seconds, burst_size);
        let (st, n) = bucket_replay(prev, max_requests, window_seconds, burst_size);
        let now = times.last();
        let cap = max_tokens(max_requests, burst_size);
        let w = window_seconds as int;
        let m = max_requests as int;
        let f = times[0] as int;
        assert(times[0] <= now);
        if prev.len() > 0 {
            assert(prev[0] == times[0]);
            assert(prev.last() == times[prev.len() - 1]);
        }
        let t = crate::rate_limiter::refilled(now, st, max_requests, window_seconds, burst_size);
        match st {
            None => {
                assert(t == cap);
                assert(w * (cap - 1 + n + 1) == w * cap);
                assert(0 <= (now - f) * m) by (nonlinear_arith)
                    requires now >= f, m > 0;
            },
            Some(s) => {
                let l0 = s.last_refill as int;
                let e = now - l0;
                let add = (e * m) / w;
                assert(e >= 0);
                assert(w * add <= e * m) by (nonlinear_arith)
                    requires add == (e * m) / w, w > 0, e >= 0, m > 0;
                assert(t <= s.tokens + add);
                assert((l0 - f) * m + e * m == (now - f) * m) by (nonlinear_arith)
                    requires e == now - l0;
                if t > 0 {
                    assert(w * (t - 1 + n + 1) <= w * (s.tokens + n) + w * add) by (nonlinear_arith)
                        requires t <= s.tokens + add, w > 0;
                }
            },
        }
    }
}

/// Token bucket: with one limit and requests served in time order from an
/// empty store, `window_seconds` times the number admitted is at most
/// `window_seconds * (max_requests + burst_size)` plus `max_requests` per
/// elapsed second: a rate of at most `max_requests / window_seconds` on top of
/// the initial capacity.
pub proof fn lemma_token_bucket_bound(times: Seq<u64>, max_requests: i32, window_seconds: i32, burst_size: i32)
    requires
        times.len() > 0,
        nondecreasing(times),
        max_requests > 0,
        window_seconds > 0,
        burst_size > 0,
        forall|i: int| 0 <= i < times.len() ==> times[i] + max_tokens(max_requests, burst_size) * window_seconds <= u64::MAX,
    ensures
        window_seconds * bucket_replay(times, max_requests, window_seconds, burst_size).1
            <= window_seconds * (max_requests + burst_size) + (times.last() - times[0]) * max_requests,
{
    lemma_bucket_invariant(times, max_requests, window_seconds, burst_size);
    let (st, n) = bucket_replay(times, max_requests, window_seconds, burst_size);
    let w = window_seconds as int;
    let m = max_requests as int;
    let d = times.last() - times[0];
    assert(times[0] <= times.last());
    assert(0 <= d * m) by (nonlinear_arith)
        requires d >= 0, m > 0;
    match st {
        None => {
            assert(0 <= w * (max_requests + burst_size)) by (nonlinear_arith)
                requires w > 0, max_requests + burst_size > 0;
        },
        Some(s) => {
            assert(w * n <= w * (s.tokens + n)) by (nonlinear_arith)
                requires w > 0, s.tokens >= 0;
            assert((s.last_refill - times[0]) * m <= d * m) by (nonlinear_arith)
                requires s.last_refill <= times.last(), m > 0, d == times.last() - times[0];
        },
    }
}

/// Token bucket: requests arriving in the same second after an empty store
/// are admitted at most `max_requests + burst_size` times.
pub proof fn lemma_token_bucket_burst(times: Seq<u64>, max_requests: i32, window_seconds: i32, burst_size: i32)
    requires
        times.len() > 0,
        forall|i: int| 0 <= i < times.len() ==> #[trigger] times[i] == times[0],
        max_requests > 0,
        window_seconds > 0,
        burst_size > 0,
        times[0] + max_tokens(max_requests, burst_size) * window_seconds <= u64::MAX,
    ensures
        bucket_replay(times, max_requests, window_seconds, burst_size).1 <= max_requests + burst_size,
{
    assert(nondecreasing(times));
    lemma_token_bucket_bound(times, max_requests, window_seconds, burst_size);
    let n = bucket_replay(times, max_requests, window_seconds, burst_size).1;
    assert(times[times.len() - 1] == times[0]);
    assert((times.last() - times[0]) * max_requests == 0) by (nonlinear_arith)
        requires times.last() == times[0];
    assert(n <= max_requests + burst_size) by (nonlinear_arith)
        requires window_seconds * n <= window_seconds * (max_requests + burst_size), window_seconds > 0;
}

} // verus!
