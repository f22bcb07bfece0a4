//! The traffic volume counter.
//!
//! A coarser, higher-threshold signal than the window rate counter: a
//! remote fixed-window count per identity answers "does this look like a
//! flood", while a local in-process tally serves only as a supplementary
//! signal and is swept wholesale on a fixed cadence to bound memory.

use vstd::prelude::*;
use crate::arith::{inc_u64, inc_u64_spec};
use crate::str_map::StringMap;
use crate::text::concat_str;

verus! {

/// How often the local tally map is cleared, in seconds.
pub const LOCAL_TALLY_SWEEP_SECONDS: u64 = 300;

/// The store key that tracks `ip` for the volume counter.
pub open spec fn traffic_key_spec(ip: Seq<char>) -> Seq<char> {
    "traffic:"@ + ip
}

/// Builds the store key that tracks `ip`.
pub fn traffic_key(ip: &str) -> (k: String)
    ensures
        k@ == traffic_key_spec(ip@),
{
    concat_str("traffic:", ip)
}

/// The store operations that record one request: increment the key and
/// refresh its expiry to the window length.
pub struct TrafficUpdate {
    /// The key to increment.
    pub key: String,
    /// The expiry to set on the key.
    pub expiry_seconds: u64,
}

/// Watches per-identity request volume for flood patterns.
pub struct TrafficAnalyzer {
    /// Volume at which an identity counts as a flood suspect.
    pub request_threshold: u64,
    /// Length of the remote counting window, in seconds.
    pub time_window_seconds: u64,
    /// Local supplementary tally, cleared wholesale by the sweep.
    pub request_counts: StringMap<u64>,
    /// When the local tally was last cleared.
    pub last_cleanup: u64,
}

impl TrafficAnalyzer {
    /// Creates an analyzer with an empty local tally.
    pub fn new(request_threshold: u64, time_window_seconds: u64, now: u64) -> (a: Self)
        ensures
            a.request_threshold == request_threshold,
            a.time_window_seconds == time_window_seconds,
            a.request_counts@ == Map::<Seq<char>, u64>::empty(),
            a.last_cleanup == now,
    {
        TrafficAnalyzer {
            request_threshold,
            time_window_seconds,
            request_counts: StringMap::new(),
            last_cleanup: now,
        }
    }

    /// Records one request from `ip`: bumps the local tally and yields
    /// the update the remote store must apply.
    pub fn record_request(&mut self, ip: &str) -> (u: TrafficUpdate)
        ensures
            u.key@ == traffic_key_spec(ip@),
            u.expiry_seconds == old(self).time_window_seconds,
            final(self).request_counts@ == old(self).request_counts@.insert(
                ip@,
                inc_u64_spec(
                    if old(self).request_counts@.contains_key(ip@) {
                        old(self).request_counts@[ip@]
                    } else {
                        0u64
                    },
                ),
            ),
            final(self).request_threshold == old(self).request_threshold,
            final(self).time_window_seconds == old(self).time_window_seconds,
            final(self).last_cleanup == old(self).last_cleanup,
    {
        let prev: u64 = match self.request_counts.get(ip) {
            Some(c) => *c,
            None => 0,
        };
        self.request_counts.insert(String::from_str(ip), inc_u64(prev));
        TrafficUpdate { key: traffic_key(ip), expiry_seconds: self.time_window_seconds }
    }

    /// Decides whether the remote count marks the identity as a flood
    /// suspect.
    pub fn check_for_ddos(&self, count: u64) -> (r: bool)
        ensures
            r == (count >= self.request_threshold),
    {
        count >= self.request_threshold
    }

    /// Renders the volume counter's state for `ip` from the stored count
    /// and the key's remaining time to live (negative when the key has no
    /// expiry or does not exist).
    pub fn get_traffic_stats(&self, ip: &str, count: u64, ttl: i32, now: u64) -> (s: TrafficStats)
        ensures
            s.ip@ == ip@,
            s.request_count == count,
            s.threshold == self.request_threshold,
            s.time_window_seconds == self.time_window_seconds,
            s.reset_time == if ttl > 0 {
                Some(crate::arith::sat_add_u64_spec(now, ttl as u64))
            } else {
                None::<u64>
            },
    {
        let reset_time = if ttl > 0 {
            Some(crate::arith::sat_add_u64(now, ttl as u64))
        } else {
            None
        };
        TrafficStats {
            ip: String::from_str(ip),
            request_count: count,
            threshold: self.request_threshold,
            time_window_seconds: self.time_window_seconds,
            reset_time,
        }
    }

    /// Clears the local tally once its sweep cadence has elapsed; between
    /// sweeps the analyzer is left untouched.
    pub fn cleanup_old_entries(&mut self, now: u64)
        ensures
            final(self).request_threshold == old(self).request_threshold,
            final(self).time_window_seconds == old(self).time_window_seconds,
            if now >= old(self).last_cleanup + LOCAL_TALLY_SWEEP_SECONDS {
                final(self).request_counts@ == Map::<Seq<char>, u64>::empty()
                    && final(self).last_cleanup == now
            } else {
                final(self).request_counts@ == old(self).request_counts@
                    && final(self).last_cleanup == old(self).last_cleanup
            },
    {
        if now >= self.last_cleanup && now - self.last_cleanup >= LOCAL_TALLY_SWEEP_SECONDS {
            self.last_cleanup = now;
            self.request_counts.clear();
        }
    }
}

/// A non-mutating snapshot of the volume counter for one identity.
#[derive(Debug, Clone)]
pub struct TrafficStats {
    /// The identity the snapshot describes.
    pub ip: String,
    /// The stored count for the current window.
    pub request_count: u64,
    /// The flood-suspect threshold.
    pub threshold: u64,
    /// Length of the counting window, in seconds.
    pub time_window_seconds: u64,
    /// When the window resets, if an expiry is pending.
    pub reset_time: Option<u64>,
}

} // verus!
