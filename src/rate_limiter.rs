//! Rate-limit decisions for the sliding-window and token-bucket algorithms.
//!
//! The counters live in a shared key-value store. The library names the keys,
//! decides from what the store returned, and says what to write back; the
//! round trips to the store are made by the caller.
use vstd::prelude::*;

use deadpool_redis::redis::Client;

use crate::ids::random_id;
use crate::ids::uuid_string;
use crate::models::IdentifierType;
use crate::text::dec_text;
use crate::text::u64_text;
use crate::text::uuid_text;

verus! {

#[verifier::external_type_specification]
#[verifier::external_body]
pub struct ExRedisClient(Client);

/// Whether `redis::Client::open` accepts the connection URL `url`.
pub uninterp spec fn redis_url_accepted(url: Seq<char>) -> bool;

/// Relies on `redis::Client::open`: it checks the URL without connecting, so
/// the outcome depends on the text alone; the error becomes its message.
#[verifier::external_body]
fn open_client(url: &str) -> (r: Result<Client, String>)
    ensures
        r is Ok <==> redis_url_accepted(url@),
{
    Client::open(url).map_err(|e| e.to_string())
}

/// Outcome of one rate-limit check.
#[derive(Clone, Copy, Debug, PartialEq, Eq, Structural)]
pub struct LimitDecision {
    pub allowed: bool,
    /// Requests or tokens left after this one.
    pub remaining: i64,
    /// Unix second at which the limit is expected to admit again.
    pub reset: u64,
}

/// Stored state of a token bucket.
#[derive(Clone, Copy, Debug, PartialEq, Eq, Structural)]
pub struct BucketState {
    pub tokens: i64,
    pub last_refill: u64,
}

/// Outcome of a token-bucket check, with the state to store when admitted.
#[derive(Clone, Copy, Debug, PartialEq, Eq, Structural)]
pub struct BucketDecision {
    pub decision: LimitDecision,
    pub store: Option<BucketState>,
}

/// Sliding window: with `count` requests in the window, deny when the limit
/// is reached (reset at the oldest remaining request plus the window, or now
/// plus the window when there is none); admit otherwise.
pub open spec fn sliding_verdict(now: u64, count: int, oldest: Option<u64>, max_requests: i32, window_seconds: i32) -> LimitDecision {
    if count >= max_requests {
        LimitDecision {
            allowed: false,
            remaining: 0,
            reset: match oldest {
                Some(o) => (o + window_seconds) as u64,
                None => (now + window_seconds) as u64,
            },
        }
    } else {
        LimitDecision {
            allowed: true,
            remaining: (max_requests - count - 1) as i64,
            reset: (now + window_seconds) as u64,
        }
    }
}

/// Capacity of a token bucket.
pub open spec fn max_tokens(max_requests: i32, burst_size: i32) -> int {
    max_requests + burst_size
}

/// Tokens available at `now` before this request is charged.
pub open spec fn refilled(now: u64, stored: Option<BucketState>, max_requests: i32, window_seconds: i32, burst_size: i32) -> int {
    let cap = max_tokens(max_requests, burst_size);
    let (t0, l0) = match stored {
        Some(s) => (s.tokens as int, s.last_refill as int),
        None => (cap, now as int),
    };
    let elapsed = if now > l0 { now - l0 } else { 0 };
    let t = t0 + (elapsed * max_requests) / (window_seconds as int);
    if t < cap { t } else { cap }
}

/// Token bucket: admit and charge one token when one is available, and store
/// the new count with `now` as the refill time; deny otherwise.
pub open spec fn bucket_verdict(now: u64, stored: Option<BucketState>, max_requests: i32, window_seconds: i32, burst_size: i32) -> BucketDecision {
    let cap = max_tokens(max_requests, burst_size);
    let t = refilled(now, stored, max_requests, window_seconds, burst_size);
    if t > 0 {
        BucketDecision {
            decision: LimitDecision {
                allowed: true,
                remaining: (t - 1) as i64,
                reset: (now + ((cap - (t - 1)) * window_seconds) / (max_requests as int)) as u64,
            },
            store: Some(BucketState { tokens: (t - 1) as i64, last_refill: now }),
        }
    } else {
        BucketDecision {
            decision: LimitDecision {
                allowed: false,
                remaining: 0,
                reset: (now + (window_seconds as int) / (max_requests as int)) as u64,
            },
            store: None,
        }
    }
}

/// `route_id:identifier_type:identifier`.
pub open spec fn composite_key(route_id: u128, t: IdentifierType, identifier: Seq<char>) -> Seq<char> {
    uuid_text(route_id) + seq![':'] + t.text() + seq![':'] + identifier
}

/// Store key of a sliding window.
pub open spec fn sliding_key_of(key: Seq<char>) -> Seq<char> {
    "ratelimit:"@ + key
}

/// Store key of a token bucket.
pub open spec fn bucket_key_of(key: Seq<char>) -> Seq<char> {
    "ratelimit:bucket:"@ + key
}

/// Rate limiter bound to the shared key-value store.
pub struct RateLimiter {
    client: Client,
}

impl RateLimiter {
    /// A limiter for the store at `redis_url`; fails when the URL is refused.
    pub fn new(redis_url: &str) -> (r: Result<RateLimiter, String>)
        ensures
            r is Ok <==> redis_url_accepted(redis_url@),
    {
        match open_client(redis_url) {
            Ok(client) => Ok(RateLimiter { client }),
            Err(e) => Err(e),
        }
    }

    /// The store client.
    pub fn client(&self) -> &Client {
        &self.client
    }

    /// `route_id:identifier_type:identifier`, the key a limit counts under.
    pub fn composite_key(route_id: u128, t: IdentifierType, identifier: &str) -> (r: String)
        ensures
            r@ == composite_key(route_id, t, identifier@),
    {
        proof {
            reveal_strlit(":");
        }
        let mut k = uuid_string(route_id);
        k.append(":");
        k.append(t.as_str());
        k.append(":");
        k.append(identifier);
        assert(k@ =~= composite_key(route_id, t, identifier@));
        k
    }

    /// Store key of the sliding window for `key`.
    pub fn sliding_key(key: &str) -> (r: String)
        ensures
            r@ == sliding_key_of(key@),
    {
        let mut k = String::from_str("ratelimit:");
        k.append(key);
        k
    }

    /// Store key of the token bucket for `key`.
    pub fn bucket_key(key: &str) -> (r: String)
        ensures
            r@ == bucket_key_of(key@),
    {
        let mut k = String::from_str("ratelimit:bucket:");
        k.append(key);
        k
    }

    /// Scores at or below this value have left the window; `None` when no
    /// score can have (the window reaches before the epoch).
    pub fn sliding_cutoff(now: u64, window_seconds: i32) -> (r: Option<u64>)
        requires
            window_seconds > 0,
        ensures
            now >= window_seconds ==> r == Some((now - window_seconds) as u64),
            now < window_seconds ==> r is None,
    {
        if now >= window_seconds as u64 {
            Some(now - window_seconds as u64)
        } else {
            None
        }
    }

    /// Lifetime of a sliding-window key: the window plus sixty seconds.
    pub fn sliding_ttl(window_seconds: i32) -> (r: i64)
        ensures
            r == window_seconds + 60,
    {
        window_seconds as i64 + 60
    }

    /// Lifetime of a token-bucket key: two windows.
    pub fn bucket_ttl(window_seconds: i32) -> (r: i64)
        ensures
            r == 2 * window_seconds,
    {
        2 * (window_seconds as i64)
    }

    /// A fresh member for the sliding window: the second and a random identifier.
    pub fn window_member(now: u64) -> (r: String)
        ensures
            exists|n: u128| r@ == dec_text(now as nat) + seq![':'] + #[trigger] uuid_text(n),
    {
        proof {
            reveal_strlit(":");
        }
        let n = random_id();
        let mut m = u64_text(now);
        m.append(":");
        let tail = uuid_string(n);
        m.append(tail.as_str());
        assert(m@ =~= dec_text(now as nat) + seq![':'] + uuid_text(n));
        m
    }

    /// Sliding-window decision from the number of requests left in the window
    /// and the score of the oldest of them.
    pub fn sliding_window_decision(now: u64, count: u64, oldest: Option<u64>, max_requests: i32, window_seconds: i32) -> (r: LimitDecision)
        requires
            max_requests > 0,
            window_seconds > 0,
            now + window_seconds <= u64::MAX,
            oldest matches Some(o) ==> o + window_seconds <= u64::MAX,
        ensures
            r == sliding_verdict(now, count as int, oldest, max_requests, window_seconds),
    {
        if count >= max_requests as u64 {
            let reset = match oldest {
                Some(o) => o + window_seconds as u64,
                None => now + window_seconds as u64,
            };
            LimitDecision { allowed: false, remaining: 0, reset }
        } else {
            LimitDecision {
                allowed: true,
                remaining: max_requests as i64 - count as i64 - 1,
                reset: now + window_seconds as u64,
            }
        }
    }

    /// Token-bucket decision from the stored state (`None` when the bucket
    /// has none: it starts full at `now`).
    pub fn token_bucket_decision(now: u64, stored: Option<BucketState>, max_requests: i32, window_seconds: i32, burst_size: i32) -> (r: BucketDecision)
        requires
            max_requests > 0,
            window_seconds > 0,
            burst_size > 0,
            now + max_tokens(max_requests, burst_size) * window_seconds <= u64::MAX,
        ensures
            r == bucket_verdict(now, stored, max_requests, window_seconds, burst_size),
    {
        let cap: i64 = max_requests as i64 + burst_size as i64;
        let (t0, l0): (i64, u64) = match stored {
            Some(s) => (s.tokens, s.last_refill),
            None => (cap, now),
        };
        let elapsed: u64 = if now > l0 { now - l0 } else { 0 };
        proof {
            assert((elapsed as int) * (max_requests as int) <= (u64::MAX as int) * (i32::MAX as int)) by (nonlinear_arith)
                requires 0 <= elapsed <= u64::MAX, 0 < max_requests <= i32::MAX;
        }
        let product: u128 = elapsed as u128 * max_requests as u128;
        let add: u128 = product / window_seconds as u128;
        assert(add <= product) by (nonlinear_arith)
            requires add == product / (window_seconds as u128), window_seconds > 0, product >= 0;
        let sum: i128 = t0 as i128 + add as i128;
        let t: i64 = if sum < cap as i128 { sum as i64 } else { cap };
        assert(t == refilled(now, stored, max_requests, window_seconds, burst_size));
        if t > 0 {
            let rem: i64 = t - 1;
            let spent: u64 = (cap - rem) as u64;
            proof {
                assert(spent <= cap);
                assert((spent as int) * (window_seconds as int) <= cap * (window_seconds as int)) by (nonlinear_arith)
                    requires 0 <= spent <= cap, window_seconds > 0;
            }
            let scaled: u64 = spent * window_seconds as u64;
            let wait: u64 = scaled / max_requests as u64;
            assert(wait <= scaled) by (nonlinear_arith)
                requires wait == scaled / (max_requests as u64), max_requests > 0;
            BucketDecision {
                decision: LimitDecision { allowed: true, remaining: rem, reset: now + wait },
                store: Some(BucketState { tokens: rem, last_refill: now }),
            }
        } else {
            let wait: u64 = window_seconds as u64 / max_requests as u64;
            assert(wait <= window_seconds) by (nonlinear_arith)
                requires wait == (window_seconds as u64) / (max_requests as u64), max_requests > 0, window_seconds > 0;
            assert(window_seconds <= max_tokens(max_requests, burst_size) * window_seconds) by (nonlinear_arith)
                requires max_tokens(max_requests, burst_size) >= 1, window_seconds > 0;
            BucketDecision {
                decision: LimitDecision { allowed: false, remaining: 0, reset: now + wait },
                store: None,
            }
        }
    }
}

} // verus!
