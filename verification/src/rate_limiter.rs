//! The distributed window rate counter.
//!
//! The counter itself lives in the remote store; this module owns every
//! decision about it.  The caller reads the stored count, asks
//! [`RateLimiter::check_rate_limit`] what to do, and applies the returned
//! update to the store.  A request is admitted while the stored count is
//! below the limit; the attempt that finds the counter full is rejected
//! and leaves the counter untouched.  The window starts on the first
//! request after an empty period: that request's update carries the
//! expiry that bounds the window.

use vstd::prelude::*;
use crate::config::RateLimitConfig;
use crate::error::DdosError;
use crate::text::concat_str;

verus! {

/// The store key that tracks `ip` for the window rate counter.
pub open spec fn rate_limit_key_spec(ip: Seq<char>) -> Seq<char> {
    "rate_limit:"@ + ip
}

/// Builds the store key that tracks `ip`.
pub fn rate_limit_key(ip: &str) -> (k: String)
    ensures
        k@ == rate_limit_key_spec(ip@),
{
    concat_str("rate_limit:", ip)
}

/// One admission step of the window counter: from the stored count, the
/// count after the step and whether the request was admitted.
pub open spec fn consume_step(count: u32, max: u32) -> (u32, bool) {
    if count >= max {
        (count, false)
    } else {
        ((count + 1) as u32, true)
    }
}

/// The stored count after `n` admitted requests into an empty window.
pub open spec fn count_after(n: nat, max: u32) -> u32
    decreases n,
{
    if n == 0 {
        0
    } else {
        consume_step(count_after((n - 1) as nat, max), max).0
    }
}

/// A window admits its first `max` requests: after `n <= max` requests
/// the stored count is exactly `n`, and while `n < max` the next request
/// is still admitted.
pub proof fn lemma_window_admits_up_to_max(n: nat, max: u32)
    requires
        n <= max,
    ensures
        count_after(n, max) == n,
        n < max ==> consume_step(count_after(n, max), max).1,
    decreases n,
{
    if n > 0 {
        lemma_window_admits_up_to_max((n - 1) as nat, max);
    }
}

/// After exactly `max` admitted requests the next attempt is rejected,
/// and the rejection leaves the stored count unchanged.
pub proof fn lemma_rejection_leaves_count(max: u32)
    ensures
        count_after(max as nat, max) == max,
        consume_step(max, max) == (max, false),
{
    lemma_window_admits_up_to_max(max as nat, max);
}

/// The contents of the counter store, as the specifications see it.
/// Resetting an identity deletes its key.
pub open spec fn reset_applied(store: Map<Seq<char>, u64>, ip: Seq<char>) -> Map<Seq<char>, u64> {
    store.remove(rate_limit_key_spec(ip))
}

/// Resetting an identity twice leaves the store exactly as resetting it
/// once does.
pub proof fn lemma_reset_idempotent(store: Map<Seq<char>, u64>, ip: Seq<char>)
    ensures
        reset_applied(reset_applied(store, ip), ip) == reset_applied(store, ip),
{
    assert(reset_applied(reset_applied(store, ip), ip) =~= reset_applied(store, ip));
}

/// The store operations that follow an admitted request: increment the
/// key, and start the window's expiry when the window was empty.
pub struct CounterUpdate {
    /// The key to increment.
    pub key: String,
    /// The expiry to set, present exactly when this request opened the
    /// window.
    pub set_expiry_seconds: Option<u64>,
}

/// Decides admission against the remote window counter.
pub struct RateLimiter {
    /// The counter's limit and period.
    pub config: RateLimitConfig,
}

impl RateLimiter {
    /// Creates a rate limiter with the given configuration.
    pub fn new(config: RateLimitConfig) -> (r: Self)
        ensures
            r.config == config,
    {
        RateLimiter { config }
    }

    /// Decides whether a request from `ip` is admitted, given the count
    /// the store currently holds for it.  An admitted request yields the
    /// update the store must apply; a rejected one yields the rate-limit
    /// error and no update, so the rejected attempt never advances the
    /// counter.
    pub fn check_rate_limit(&self, ip: &str, count: u32) -> (r: Result<CounterUpdate, DdosError>)
        ensures
            r is Ok <==> count < self.config.max_requests,
            r is Ok <==> consume_step(count, self.config.max_requests).1,
            consume_step(count, self.config.max_requests).0 == if r is Ok {
                (count + 1) as u32
            } else {
                count
            },
            match r {
                Ok(u) => {
                    &&& u.key@ == rate_limit_key_spec(ip@)
                    &&& u.set_expiry_seconds == if count == 0 {
                        Some(self.config.period_seconds)
                    } else {
                        None::<u64>
                    }
                },
                Err(e) => e matches DdosError::RateLimitExceeded(m) && m@ == ip@,
            },
    {
        if count >= self.config.max_requests {
            Err(DdosError::RateLimitExceeded(String::from_str(ip)))
        } else {
            let set_expiry_seconds = if count == 0 {
                Some(self.config.period_seconds)
            } else {
                None
            };
            Ok(CounterUpdate { key: rate_limit_key(ip), set_expiry_seconds })
        }
    }

    /// Resets the window for `ip`: deleting the returned key clears the
    /// stored count, as [`reset_applied`] states.
    pub fn reset_rate_limit(&self, ip: &str) -> (k: String)
        ensures
            k@ == rate_limit_key_spec(ip@),
    {
        rate_limit_key(ip)
    }

    /// Renders the counter's state for `ip` from the stored count and the
    /// key's remaining time to live (negative when the key has no expiry
    /// or does not exist).
    pub fn get_rate_limit_status(&self, ip: &str, count: u32, ttl: i32, now: u64) -> (s:
        RateLimitStatus)
        ensures
            s.ip@ == ip@,
            s.count == count,
            s.limit == self.config.max_requests,
            s.remaining == if count >= self.config.max_requests {
                0u32
            } else {
                (self.config.max_requests - count) as u32
            },
            s.reset_time == if ttl > 0 {
                Some(crate::arith::sat_add_u64_spec(now, ttl as u64))
            } else {
                None::<u64>
            },
    {
        let remaining = if count >= self.config.max_requests {
            0
        } else {
            self.config.max_requests - count
        };
        let reset_time = if ttl > 0 {
            Some(crate::arith::sat_add_u64(now, ttl as u64))
        } else {
            None
        };
        RateLimitStatus {
            ip: String::from_str(ip),
            count,
            limit: self.config.max_requests,
            remaining,
            reset_time,
        }
    }
}

/// A non-mutating snapshot of the window counter for one identity.
#[derive(Debug, Clone)]
pub struct RateLimitStatus {
    /// The identity the snapshot describes.
    pub ip: String,
    /// The stored count.
    pub count: u32,
    /// The configured limit.
    pub limit: u32,
    /// How many further requests the window admits.
    pub remaining: u32,
    /// When the window resets, if an expiry is pending.
    pub reset_time: Option<u64>,
}

/// Thin adapter that lets a request-handling shell consult the rate
/// limiter per inbound request.
pub struct RateLimitMiddleware {
    /// The underlying rate limiter.
    pub rate_limiter: RateLimiter,
}

impl RateLimitMiddleware {
    /// Wraps a rate limiter.
    pub fn new(rate_limiter: RateLimiter) -> (r: Self)
        ensures
            r.rate_limiter == rate_limiter,
    {
        RateLimitMiddleware { rate_limiter }
    }

    /// Decides one request; same contract as
    /// [`RateLimiter::check_rate_limit`].
    pub fn check_request(&self, ip: &str, count: u32) -> (r: Result<CounterUpdate, DdosError>)
        ensures
            r is Ok <==> count < self.rate_limiter.config.max_requests,
            match r {
                Ok(u) => {
                    &&& u.key@ == rate_limit_key_spec(ip@)
                    &&& u.set_expiry_seconds == if count == 0 {
                        Some(self.rate_limiter.config.period_seconds)
                    } else {
                        None::<u64>
                    }
                },
                Err(e) => e matches DdosError::RateLimitExceeded(m) && m@ == ip@,
            },
    {
        self.rate_limiter.check_rate_limit(ip, count)
    }
}

} // verus!
