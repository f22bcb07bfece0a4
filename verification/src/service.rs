//! The admission coordinator: the per-identity state machine.
//!
//! A stream of "request seen from identity X" events becomes one of a
//! small set of admission decisions.  The decision is made on local
//! per-process counters, so the hot path never waits on the remote
//! store; the firewall round trip that enforces a block sits between
//! [`DdosProtectionService::process_request`], which decides that a
//! block is required, and
//! [`DdosProtectionService::apply_block_outcome`], which records what
//! the firewall replied.  A periodic sweep reclaims idle state and
//! reports which blocks have expired so the caller can lift them.

use vstd::prelude::*;
use crate::arith::{inc_u32, inc_u32_spec, sat_add_u64, sat_add_u64_spec};
use crate::cloudflare::{
    make_block_rule,
    CloudflareResponse,
    CloudflareRulesManager,
    FirewallRule,
    UnblockStep,
};
use crate::error::ServiceError;
use crate::str_map::StringMap;
use crate::text::concat_str;

verus! {

/// Configuration of the admission coordinator.
#[derive(Debug, Clone, Copy)]
pub struct DdosProtectionConfig {
    /// Requests allowed per identity within one window.
    pub max_requests_per_ip: u32,
    /// Window length, in seconds.
    pub time_window_seconds: u64,
    /// Violations after which an identity is blocked.
    pub violations_before_block: u32,
    /// How long a block lasts, in seconds.
    pub block_duration_seconds: u64,
}

impl Default for DdosProtectionConfig {
    /// The stock configuration: 100 requests per minute, three
    /// violations, one-hour blocks.
    fn default() -> (c: Self)
        ensures
            c.max_requests_per_ip == 100,
            c.time_window_seconds == 60,
            c.violations_before_block == 3,
            c.block_duration_seconds == 3600,
    {
        DdosProtectionConfig {
            max_requests_per_ip: 100,
            time_window_seconds: 60,
            violations_before_block: 3,
            block_duration_seconds: 3600,
        }
    }
}

/// The coordinator's record of one identity.
#[derive(Debug, Clone, Copy)]
pub struct IpState {
    /// Requests observed in the current window.
    pub request_count: u32,
    /// When the current window began.
    pub window_start: u64,
    /// Consecutive windows that exceeded the limit, not yet cleared by
    /// an unblock.
    pub violations: u32,
    /// When the block lifts, if the identity is locally blocked.
    pub blocked_until: Option<u64>,
}

impl IpState {
    /// The state of an identity first seen at `now`.
    pub open spec fn fresh(now: u64) -> IpState {
        IpState { request_count: 0, window_start: now, violations: 0, blocked_until: None }
    }

    /// Creates the state of an identity first seen at `now`.
    pub fn new(now: u64) -> (s: Self)
        ensures
            s == IpState::fresh(now),
    {
        IpState { request_count: 0, window_start: now, violations: 0, blocked_until: None }
    }
}

/// The admission decision for one request.
#[derive(Debug, Clone, Copy, PartialEq, Eq, Structural)]
pub enum RequestOutcome {
    /// The request is admitted.
    Allowed,
    /// The request exceeded the window's limit and is rejected.
    RateLimited,
    /// The violation threshold is reached: the caller must ask the
    /// firewall to block the identity, then report the reply to
    /// [`DdosProtectionService::apply_block_outcome`].  The request
    /// itself is rejected.
    BlockRequired,
    /// The identity is already blocked; nothing was counted.
    Blocked,
}

/// Whether the window that began at `st.window_start` is over at `now`.
pub open spec fn window_elapsed(cfg: DdosProtectionConfig, st: IpState, now: u64) -> bool {
    now > st.window_start + cfg.time_window_seconds
}

/// Whether the identity's own record blocks it at `now`.
pub open spec fn locally_blocked(st: IpState, now: u64) -> bool {
    match st.blocked_until {
        Some(t) => now < t,
        None => false,
    }
}

/// One request's transition of an unblocked identity's record: the
/// window resets if it has elapsed, the request is counted, and a count
/// beyond the limit records a violation and — at the threshold —
/// demands a block.
pub open spec fn step_state(cfg: DdosProtectionConfig, st: IpState, now: u64) -> (
    IpState,
    RequestOutcome,
) {
    let base = if window_elapsed(cfg, st, now) {
        IpState { request_count: 0, window_start: now, ..st }
    } else {
        st
    };
    let counted = IpState { request_count: inc_u32_spec(base.request_count), ..base };
    if counted.request_count > cfg.max_requests_per_ip {
        let warned = IpState { violations: inc_u32_spec(counted.violations), ..counted };
        if warned.violations >= cfg.violations_before_block {
            (warned, RequestOutcome::BlockRequired)
        } else {
            (warned, RequestOutcome::RateLimited)
        }
    } else {
        (counted, RequestOutcome::Allowed)
    }
}

/// The record after `n` requests from the same identity at time `now`.
pub open spec fn run_requests(cfg: DdosProtectionConfig, st: IpState, now: u64, n: nat) -> IpState
    decreases n,
{
    if n == 0 {
        st
    } else {
        step_state(cfg, run_requests(cfg, st, now, (n - 1) as nat), now).0
    }
}

/// The outcome of the `n`-th request (counting from 1) from the same
/// identity at time `now`.
pub open spec fn run_outcome(cfg: DdosProtectionConfig, st: IpState, now: u64, n: nat)
    -> RequestOutcome
    recommends
        n >= 1,
{
    step_state(cfg, run_requests(cfg, st, now, (n - 1) as nat), now).1
}

/// Whether the sweep reclaims this record: its window is over and it
/// carries neither violations nor a block.
pub open spec fn reclaimable(cfg: DdosProtectionConfig, st: IpState, now: u64) -> bool {
    window_elapsed(cfg, st, now) && st.violations == 0 && st.blocked_until is None
}

/// Whether this record's block has run out at `now`.
pub open spec fn block_expired(st: IpState, now: u64) -> bool {
    match st.blocked_until {
        Some(t) => now >= t,
        None => false,
    }
}

/// The state table after the sweep's garbage collection.
pub open spec fn swept_states(
    cfg: DdosProtectionConfig,
    states: Map<Seq<char>, IpState>,
    now: u64,
) -> Map<Seq<char>, IpState> {
    states.remove_keys(
        Set::new(|k: Seq<char>| states.contains_key(k) && reclaimable(cfg, states[k], now)),
    )
}

/// The state table after `ip`'s block is lifted: its record, if any,
/// loses its block and its violations.
pub open spec fn unblocked_states(states: Map<Seq<char>, IpState>, ip: Seq<char>) -> Map<
    Seq<char>,
    IpState,
> {
    if states.contains_key(ip) {
        states.insert(
            ip,
            IpState { violations: 0, blocked_until: None, ..states[ip] },
        )
    } else {
        states
    }
}

/// Whether `ip` is blocked, given the registry's records and the local
/// state table.
pub open spec fn is_blocked_model(
    blocked: Map<Seq<char>, String>,
    states: Map<Seq<char>, IpState>,
    ip: Seq<char>,
    now: u64,
) -> bool {
    blocked.contains_key(ip) || (states.contains_key(ip) && locally_blocked(states[ip], now))
}

/// The description the coordinator writes into the firewall rules it
/// requests.
pub open spec fn block_description_spec(ip: Seq<char>) -> Seq<char> {
    "Block IP "@ + ip + " - DDoS Protection"@
}

/// Builds the description for `ip`'s blocking rule.
pub fn block_description(ip: &str) -> (d: String)
    ensures
        d@ == block_description_spec(ip@),
{
    let head = concat_str("Block IP ", ip);
    concat_str(head.as_str(), " - DDoS Protection")
}

/// The admission coordinator.
pub struct DdosProtectionService {
    /// The block registry, wrapping the firewall's rule set.
    pub rules_manager: CloudflareRulesManager,
    /// The coordinator's configuration.
    pub config: DdosProtectionConfig,
    /// The per-identity state table.
    pub ip_states: StringMap<IpState>,
}

impl DdosProtectionService {
    /// The per-identity state table, as the specifications see it.
    pub open spec fn states(self) -> Map<Seq<char>, IpState> {
        self.ip_states@
    }

    /// The registry's identity-to-rule records.
    pub open spec fn blocked(self) -> Map<Seq<char>, String> {
        self.rules_manager.ip_rule_ids@
    }

    /// Whether `ip` is blocked, by the registry or by a still-active
    /// local block.
    pub open spec fn is_blocked_spec(self, ip: Seq<char>, now: u64) -> bool {
        is_blocked_model(self.blocked(), self.states(), ip, now)
    }

    /// The record a request from `ip` steps from: the stored one, or a
    /// fresh one for an identity seen for the first time at `now`.
    pub open spec fn entry_state(self, ip: Seq<char>, now: u64) -> IpState {
        if self.states().contains_key(ip) {
            self.states()[ip]
        } else {
            IpState::fresh(now)
        }
    }

    /// Creates a coordinator with an empty state table.
    pub fn new(rules_manager: CloudflareRulesManager, config: DdosProtectionConfig) -> (s: Self)
        ensures
            s.rules_manager == rules_manager,
            s.config == config,
            s.states() == Map::<Seq<char>, IpState>::empty(),
    {
        DdosProtectionService { rules_manager, config, ip_states: StringMap::new() }
    }

    /// Whether `ip` is blocked right now; a pure local check.
    pub fn is_ip_blocked(&self, ip: &str, now: u64) -> (r: bool)
        ensures
            r == self.is_blocked_spec(ip@, now),
    {
        if self.rules_manager.is_ip_blocked(ip) {
            return true;
        }
        match self.ip_states.get(ip) {
            Some(st) => match st.blocked_until {
                Some(t) => now < t,
                None => false,
            },
            None => false,
        }
    }

    /// Decides one request from `ip` at time `now`.  A blocked identity
    /// is turned away without touching any counter; otherwise the
    /// identity's record takes one [`step_state`] transition and the
    /// step's outcome is returned.
    pub fn process_request(&mut self, ip: &str, now: u64) -> (r: RequestOutcome)
        ensures
            final(self).config == old(self).config,
            final(self).rules_manager == old(self).rules_manager,
            if old(self).is_blocked_spec(ip@, now) {
                r == RequestOutcome::Blocked && final(self).states() == old(self).states()
            } else {
                final(self).states() == old(self).states().insert(
                    ip@,
                    step_state(old(self).config, old(self).entry_state(ip@, now), now).0,
                ) && r == step_state(old(self).config, old(self).entry_state(ip@, now), now).1
            },
    {
        if self.is_ip_blocked(ip, now) {
            return RequestOutcome::Blocked;
        }
        let mut st: IpState = match self.ip_states.get(ip) {
            Some(s) => *s,
            None => IpState::new(now),
        };
        if now > st.window_start && now - st.window_start > self.config.time_window_seconds {
            st.request_count = 0;
            st.window_start = now;
        }
        st.request_count = inc_u32(st.request_count);
        let outcome: RequestOutcome;
        if st.request_count > self.config.max_requests_per_ip {
            st.violations = inc_u32(st.violations);
            if st.violations >= self.config.violations_before_block {
                outcome = RequestOutcome::BlockRequired;
            } else {
                outcome = RequestOutcome::RateLimited;
            }
        } else {
            outcome = RequestOutcome::Allowed;
        }
        self.ip_states.insert(String::from_str(ip), st);
        outcome
    }

    /// The firewall rule request that blocks `ip`, for the caller to
    /// send when [`Self::process_request`] demanded a block.
    pub fn block_rule_request(&self, ip: &str) -> (r: FirewallRule)
        ensures
            r.description@ == block_description_spec(ip@),
            r.expression@ == "ip.src eq "@ + ip@,
            r.action@ == "block"@,
    {
        let description = block_description(ip);
        make_block_rule(ip, description.as_str())
    }

    /// Records the firewall's reply to `ip`'s block request.  A rejected
    /// reply surfaces the firewall's error and leaves every record
    /// untouched, so the identity stays warned and the next violation
    /// retries the block.  A successful reply records the rule and sets
    /// the local block to run `block_duration_seconds` from `now`.
    pub fn apply_block_outcome(&mut self, ip: &str, now: u64, response: &CloudflareResponse<String>)
        -> (r: Result<(), ServiceError>)
        ensures
            final(self).config == old(self).config,
            final(self).rules_manager.rate_limit_rules@ == old(self).rules_manager.rate_limit_rules@,
            !response.success ==> {
                &&& r matches Err(ServiceError::CloudflareError(m)) && m@
                    == response.first_error_spec()
                &&& final(self).states() == old(self).states()
                &&& final(self).blocked() == old(self).blocked()
                &&& final(self).rules_manager.firewall_rules@ == old(self).rules_manager.firewall_rules@
            },
            response.success ==> {
                &&& r is Ok
                &&& match response.result {
                    Some(rid) => final(self).blocked() == old(self).blocked().insert(ip@, rid)
                        && final(self).rules_manager.firewall_rules@ == old(self).rules_manager.firewall_rules@.insert(block_description_spec(ip@), rid),
                    None => final(self).blocked() == old(self).blocked() && final(self).rules_manager.firewall_rules@ == old(self).rules_manager.firewall_rules@,
                }
                &&& final(self).states() == if old(self).states().contains_key(ip@) {
                    old(self).states().insert(
                        ip@,
                        IpState {
                            blocked_until: Some(
                                sat_add_u64_spec(now, old(self).config.block_duration_seconds),
                            ),
                            ..old(self).states()[ip@]
                        },
                    )
                } else {
                    old(self).states()
                }
            },
    {
        let description = block_description(ip);
        match self.rules_manager.block_ip(ip, description.as_str(), response) {
            Err(e) => Err(e),
            Ok(_) => {
                match self.ip_states.get(ip) {
                    Some(st) => {
                        let mut updated: IpState = *st;
                        updated.blocked_until = Some(
                            sat_add_u64(now, self.config.block_duration_seconds),
                        );
                        self.ip_states.insert(String::from_str(ip), updated);
                    }
                    None => {
                        proof {
                            assert(self.states() =~= old(self).states());
                        }
                    }
                }
                Ok(())
            }
        }
    }

    /// Begins lifting `ip`'s block: a no-op for an identity without a
    /// recorded rule, otherwise the rule the caller must delete before
    /// reporting back to [`Self::finish_unblock`].
    pub fn unblock_ip(&self, ip: &str) -> (r: UnblockStep)
        ensures
            match r {
                UnblockStep::NotBlocked => !self.blocked().contains_key(ip@),
                UnblockStep::DeleteRule(rid) => self.blocked().contains_key(ip@) && rid
                    == self.blocked()[ip@],
            },
    {
        self.rules_manager.unblock_ip(ip)
    }

    /// Records the outcome of a rule deletion.  On success the registry
    /// record is dropped and the identity's own record loses its block
    /// and its violations; on failure everything is retained so the next
    /// sweep retries with the same rule id.
    pub fn finish_unblock(&mut self, ip: &str, deleted: bool)
        ensures
            final(self).config == old(self).config,
            final(self).rules_manager.firewall_rules@ == old(self).rules_manager.firewall_rules@,
            final(self).rules_manager.rate_limit_rules@ == old(self).rules_manager.rate_limit_rules@,
            if deleted {
                final(self).blocked() == old(self).blocked().remove(ip@) && final(self).states()
                    == unblocked_states(old(self).states(), ip@)
            } else {
                final(self).blocked() == old(self).blocked() && final(self).states() == old(self).states()
            },
    {
        if deleted {
            self.rules_manager.finish_unblock(ip, true);
            match self.ip_states.get(ip) {
                Some(st) => {
                    let mut updated: IpState = *st;
                    updated.blocked_until = None;
                    updated.violations = 0;
                    self.ip_states.insert(String::from_str(ip), updated);
                }
                None => {
                    proof {
                        assert(self.states() =~= unblocked_states(old(self).states(), ip@));
                    }
                }
            }
        }
    }

    /// Reads `ip`'s record: request count, violations, and whether a
    /// local block is recorded.  An unknown identity reads as all-clear.
    pub fn get_ip_state(&self, ip: &str) -> (r: (u32, u32, bool))
        ensures
            if self.states().contains_key(ip@) {
                r == (
                    self.states()[ip@].request_count,
                    self.states()[ip@].violations,
                    self.states()[ip@].blocked_until is Some,
                )
            } else {
                r == (0u32, 0u32, false)
            },
    {
        match self.ip_states.get(ip) {
            Some(st) => (st.request_count, st.violations, st.blocked_until.is_some()),
            None => (0, 0, false),
        }
    }

    /// The periodic sweep.  Records that are idle — window over, no
    /// violations, no block — are dropped; the identities whose block
    /// has run out are returned, each once, so the caller can lift their
    /// blocks through [`Self::unblock_ip`] and [`Self::finish_unblock`].
    /// An identity whose unblock fails stays recorded and is returned
    /// again by the next sweep.
    pub fn cleanup_expired_states(&mut self, now: u64) -> (expired: Vec<String>)
        ensures
            final(self).config == old(self).config,
            final(self).rules_manager == old(self).rules_manager,
            final(self).states() == swept_states(old(self).config, old(self).states(), now),
            views_of(expired@).to_set() =~= Set::new(
                |k: Seq<char>|
                    old(self).states().contains_key(k) && block_expired(old(self).states()[k], now),
            ),
            views_of(expired@).no_duplicates(),
    {
        let ghost old_states = self.ip_states@;
        let n = self.ip_states.len();
        let ghost keys0 = self.ip_states.key_seq();
        let mut to_remove: Vec<String> = Vec::new();
        let mut expired: Vec<String> = Vec::new();
        let mut i: usize = 0;
        while i < n
            invariant
                self.ip_states@ == old_states,
                self.ip_states.key_seq() == keys0,
                keys0.no_duplicates(),
                old_states.dom() =~= keys0.to_set(),
                n == keys0.len(),
                i <= n,
                forall|j: int|
                    0 <= j < to_remove@.len() ==> old_states.contains_key(
                        #[trigger] to_remove@[j]@,
                    ) && reclaimable(self.config, old_states[to_remove@[j]@], now),
                forall|j: int|
                    0 <= j < expired@.len() ==> old_states.contains_key(#[trigger] expired@[j]@)
                        && block_expired(old_states[expired@[j]@], now),
                forall|idx: int|
                    0 <= idx < i && reclaimable(self.config, old_states[keys0[idx]], now)
                        ==> views_of(to_remove@).contains(#[trigger] keys0[idx]),
                forall|idx: int|
                    0 <= idx < i && block_expired(old_states[keys0[idx]], now) ==> views_of(
                        expired@,
                    ).contains(#[trigger] keys0[idx]),
                picked_from(to_remove@, keys0, i as int),
                picked_from(expired@, keys0, i as int),
                views_of(to_remove@).no_duplicates(),
                views_of(expired@).no_duplicates(),
            decreases n - i,
        {
            let key: String = self.ip_states.key_at(i).clone();
            let st: IpState = *self.ip_states.value_at(i);
            let ghost pre_remove = to_remove@;
            let ghost pre_expired = expired@;
            let window_over = now > st.window_start && now - st.window_start
                > self.config.time_window_seconds;
            proof {
                assert(old_states[keys0[i as int]] == st);
                assert(window_over == window_elapsed(self.config, st, now));
            }
            if window_over && st.violations == 0 && st.blocked_until.is_none() {
                proof {
                    lemma_push_still_distinct(to_remove@, key, keys0, i as int);
                }
                to_remove.push(key);
                proof {
                    assert(reclaimable(self.config, st, now));
                    assert(!block_expired(st, now));
                    assert forall|idx: int|
                        0 <= idx < i + 1 && reclaimable(
                            self.config,
                            old_states[keys0[idx]],
                            now,
                        ) implies views_of(to_remove@).contains(#[trigger] keys0[idx]) by {
                        if idx < i {
                            assert(views_of(pre_remove).contains(keys0[idx]));
                        }
                    }
                }
            } else {
                let has_expired_block = match st.blocked_until {
                    Some(t) => now >= t,
                    None => false,
                };
                proof {
                    assert(!reclaimable(self.config, st, now));
                }
                if has_expired_block {
                    proof {
                        lemma_push_still_distinct(expired@, key, keys0, i as int);
                    }
                    expired.push(key);
                    proof {
                        assert(block_expired(st, now));
                        assert forall|idx: int|
                            0 <= idx < i + 1 && block_expired(
                                old_states[keys0[idx]],
                                now,
                            ) implies views_of(expired@).contains(#[trigger] keys0[idx]) by {
                            if idx < i {
                                assert(views_of(pre_expired).contains(keys0[idx]));
                            }
                        }
                    }
                } else {
                    proof {
                        assert(!block_expired(st, now));
                    }
                }
            }
            i += 1;
        }
        let m = to_remove.len();
        let mut j: usize = 0;
        proof {
            assert(views_of(to_remove@.subrange(0, 0)).to_set() =~= Set::<Seq<char>>::empty());
            assert(self.ip_states@ =~= old_states.remove_keys(
                views_of(to_remove@.subrange(0, 0)).to_set(),
            ));
        }
        while j < m
            invariant
                m == to_remove@.len(),
                j <= m,
                keys0.no_duplicates(),
                old_states.dom() =~= keys0.to_set(),
                n == keys0.len(),
                forall|p: int|
                    0 <= p < to_remove@.len() ==> old_states.contains_key(
                        #[trigger] to_remove@[p]@,
                    ) && reclaimable(self.config, old_states[to_remove@[p]@], now),
                forall|p: int|
                    0 <= p < expired@.len() ==> old_states.contains_key(#[trigger] expired@[p]@)
                        && block_expired(old_states[expired@[p]@], now),
                forall|idx: int|
                    0 <= idx < n && reclaimable(self.config, old_states[keys0[idx]], now)
                        ==> views_of(to_remove@).contains(#[trigger] keys0[idx]),
                forall|idx: int|
                    0 <= idx < n && block_expired(old_states[keys0[idx]], now) ==> views_of(
                        expired@,
                    ).contains(#[trigger] keys0[idx]),
                views_of(expired@).no_duplicates(),
                self.ip_states@ =~= old_states.remove_keys(
                    views_of(to_remove@.subrange(0, j as int)).to_set(),
                ),
                self.config == old(self).config,
                self.rules_manager == old(self).rules_manager,
            decreases m - j,
        {
            self.ip_states.remove(to_remove[j].as_str());
            proof {
                lemma_prefix_view_to_set(to_remove@, j as int);
                assert(self.ip_states@ =~= old_states.remove_keys(
                    views_of(to_remove@.subrange(0, (j + 1) as int)).to_set(),
                ));
            }
            j += 1;
        }
        proof {
            assert(to_remove@.subrange(0, m as int) =~= to_remove@);
            let collected = views_of(to_remove@).to_set();
            let reclaim_set = Set::new(
                |k: Seq<char>|
                    old_states.contains_key(k) && reclaimable(self.config, old_states[k], now),
            );
            assert forall|k: Seq<char>| collected.contains(k) implies reclaim_set.contains(k) by {
                assert(views_of(to_remove@).contains(k));
                let jj = choose|jj: int|
                    0 <= jj < views_of(to_remove@).len() && views_of(to_remove@)[jj] == k;
                assert(to_remove@[jj]@ == k);
            }
            assert forall|k: Seq<char>| reclaim_set.contains(k) implies collected.contains(k) by {
                assert(old_states.dom().contains(k));
                assert(keys0.to_set().contains(k));
                assert(keys0.contains(k));
                let idx = choose|idx: int| 0 <= idx < keys0.len() && keys0[idx] == k;
                assert(views_of(to_remove@).contains(keys0[idx]));
            }
            assert(collected =~= reclaim_set);
            assert(self.ip_states@ =~= old_states.remove_keys(collected));
            assert(self.ip_states@ =~= swept_states(old(self).config, old_states, now));
            let eset = views_of(expired@).to_set();
            let expired_set = Set::new(
                |k: Seq<char>|
                    old_states.contains_key(k) && block_expired(old_states[k], now),
            );
            assert forall|k: Seq<char>| eset.contains(k) implies expired_set.contains(k) by {
                assert(views_of(expired@).contains(k));
                let jj = choose|jj: int|
                    0 <= jj < views_of(expired@).len() && views_of(expired@)[jj] == k;
                assert(expired@[jj]@ == k);
            }
            assert forall|k: Seq<char>| expired_set.contains(k) implies eset.contains(k) by {
                assert(old_states.dom().contains(k));
                assert(keys0.to_set().contains(k));
                assert(keys0.contains(k));
                let idx = choose|idx: int| 0 <= idx < keys0.len() && keys0[idx] == k;
                assert(views_of(expired@).contains(keys0[idx]));
            }
            assert(eset =~= expired_set);
        }
        expired
    }
}

/// The views of a sequence of strings, in order.
pub open spec fn views_of(s: Seq<String>) -> Seq<Seq<char>> {
    s.map_values(|x: String| x@)
}

/// Every picked string is one of the first `i` listed keys.
spec fn picked_from(picked: Seq<String>, keys: Seq<Seq<char>>, i: int) -> bool {
    forall|j: int| #![trigger picked[j]]
        0 <= j < picked.len() ==> exists|idx: int| 0 <= idx < i && picked[j]@ == #[trigger] keys[idx]
}

proof fn lemma_push_still_distinct(picked: Seq<String>, key: String, keys: Seq<Seq<char>>, i: int)
    requires
        0 <= i < keys.len(),
        key@ == keys[i],
        keys.no_duplicates(),
        views_of(picked).no_duplicates(),
        picked_from(picked, keys, i),
    ensures
        views_of(picked.push(key)).no_duplicates(),
        picked_from(picked.push(key), keys, i + 1),
        views_of(picked.push(key)).contains(keys[i]),
        forall|k: Seq<char>| #[trigger]
            views_of(picked).contains(k) ==> views_of(picked.push(key)).contains(k),
{
    let before = views_of(picked);
    let after = views_of(picked.push(key));
    assert(after =~= before.push(key@));
    assert forall|j: int| 0 <= j < before.len() implies before[j] != key@ by {
        assert(picked[j]@ == before[j]);
        let idx = choose|idx: int| 0 <= idx < i && picked[j]@ == keys[idx];
        assert(keys[idx] != keys[i]);
    }
    assert forall|a: int, b: int|
        0 <= a < after.len() && 0 <= b < after.len() && a != b implies after[a] != after[b] by {
        let lo = if a < b { a } else { b };
        let hi = if a < b { b } else { a };
        if hi < after.len() - 1 {
            assert(before[lo] != before[hi]);
        } else {
            assert(before[lo] != key@);
        }
    }
    assert(after[after.len() - 1] == keys[i]);
    assert(after.contains(keys[i]));
    assert forall|k: Seq<char>| #[trigger]
        views_of(picked).contains(k) implies views_of(picked.push(key)).contains(k) by {
        let jdx = choose|jdx: int| 0 <= jdx < before.len() && before[jdx] == k;
        assert(after[jdx] == k);
    }
    assert forall|j: int| #![trigger picked.push(key)[j]]
        0 <= j < picked.push(key).len() implies exists|idx: int|
        0 <= idx < i + 1 && picked.push(key)[j]@ == #[trigger] keys[idx] by {
        if j < picked.len() {
            assert(picked.push(key)[j] == picked[j]);
            let idx = choose|idx: int| 0 <= idx < i && picked[j]@ == keys[idx];
            assert(picked.push(key)[j]@ == keys[idx]);
        } else {
            assert(picked.push(key)[j]@ == keys[i]);
        }
    }
}

proof fn lemma_prefix_view_to_set(s: Seq<String>, j: int)
    requires
        0 <= j < s.len(),
    ensures
        views_of(s.subrange(0, j + 1)).to_set() =~= views_of(s.subrange(0, j)).to_set().insert(
            s[j]@,
        ),
{
    let pre = views_of(s.subrange(0, j));
    let post = views_of(s.subrange(0, j + 1));
    assert(post =~= pre.push(s[j]@));
    assert forall|k: Seq<char>|
        post.to_set().contains(k) implies pre.to_set().insert(s[j]@).contains(k) by {
        assert(post.contains(k));
        let idx = choose|idx: int| 0 <= idx < post.len() && post[idx] == k;
        if idx < pre.len() {
            assert(pre[idx] == k);
            assert(pre.contains(k));
        }
    }
    assert forall|k: Seq<char>|
        pre.to_set().insert(s[j]@).contains(k) implies post.to_set().contains(k) by {
        if k == s[j]@ {
            assert(post[post.len() - 1] == k);
            assert(post.contains(k));
        } else {
            assert(pre.contains(k));
            let idx = choose|idx: int| 0 <= idx < pre.len() && pre[idx] == k;
            assert(post[idx] == k);
            assert(post.contains(k));
        }
    }
}

/// A first request from an identity the coordinator has never seen is
/// allowed, whenever the configuration admits at least one request per
/// window.
pub proof fn lemma_first_request_allowed(cfg: DdosProtectionConfig, now: u64)
    requires
        cfg.max_requests_per_ip >= 1,
    ensures
        step_state(cfg, IpState::fresh(now), now).1 == RequestOutcome::Allowed,
        step_state(cfg, IpState::fresh(now), now).0.request_count == 1,
{
}

/// After `i` requests into a window that opened at `now`, the record
/// holds `i` requests; the requests up to the limit are allowed, and the
/// one request past the limit records exactly one violation.
proof fn lemma_window_progress(cfg: DdosProtectionConfig, st: IpState, now: u64, i: nat)
    requires
        window_elapsed(cfg, st, now),
        cfg.max_requests_per_ip < u32::MAX,
        st.violations < u32::MAX,
        1 <= i <= cfg.max_requests_per_ip + 1,
    ensures
        run_requests(cfg, st, now, i) == (IpState {
            request_count: i as u32,
            window_start: now,
            violations: if i > cfg.max_requests_per_ip {
                (st.violations + 1) as u32
            } else {
                st.violations
            },
            blocked_until: st.blocked_until,
        }),
        run_outcome(cfg, st, now, i) == (if i <= cfg.max_requests_per_ip {
            RequestOutcome::Allowed
        } else if st.violations + 1 >= cfg.violations_before_block {
            RequestOutcome::BlockRequired
        } else {
            RequestOutcome::RateLimited
        }),
    decreases i,
{
    if i > 1 {
        lemma_window_progress(cfg, st, now, (i - 1) as nat);
    }
}

/// One window that sees `max_requests_per_ip + 1` requests: the limit
/// is exceeded once, one violation is recorded, and the excess request
/// is rejected — by a plain rate limit below the violation threshold,
/// and by a demand for a block at the threshold.
pub proof fn lemma_window_with_excess(cfg: DdosProtectionConfig, st: IpState, now: u64)
    requires
        window_elapsed(cfg, st, now),
        cfg.max_requests_per_ip < u32::MAX,
        st.violations < u32::MAX,
    ensures
        run_requests(cfg, st, now, (cfg.max_requests_per_ip + 1) as nat) == (IpState {
            request_count: (cfg.max_requests_per_ip + 1) as u32,
            window_start: now,
            violations: (st.violations + 1) as u32,
            blocked_until: st.blocked_until,
        }),
        run_outcome(cfg, st, now, (cfg.max_requests_per_ip + 1) as nat) == (if st.violations + 1
            >= cfg.violations_before_block {
            RequestOutcome::BlockRequired
        } else {
            RequestOutcome::RateLimited
        }),
{
    lemma_window_progress(cfg, st, now, (cfg.max_requests_per_ip + 1) as nat);
}

/// The record after a run of windows, each opening at the matching time
/// and seeing one request more than the limit.
pub open spec fn run_excess_windows(cfg: DdosProtectionConfig, st: IpState, times: Seq<u64>)
    -> IpState
    decreases times.len(),
{
    if times.len() == 0 {
        st
    } else {
        run_requests(
            cfg,
            run_excess_windows(cfg, st, times.drop_last()),
            times.last(),
            (cfg.max_requests_per_ip + 1) as nat,
        )
    }
}

/// Consecutive windows that each exceed the limit accumulate one
/// violation per window, and the window that reaches
/// `violations_before_block` ends in a demand for a block.
pub proof fn lemma_consecutive_excess_windows(
    cfg: DdosProtectionConfig,
    st: IpState,
    times: Seq<u64>,
)
    requires
        cfg.max_requests_per_ip < u32::MAX,
        st.violations == 0,
        times.len() >= 1,
        times.len() < u32::MAX,
        window_elapsed(cfg, st, times[0]),
        forall|i: int|
            1 <= i < times.len() ==> #[trigger] times[i] > times[i - 1] + cfg.time_window_seconds,
    ensures
        run_excess_windows(cfg, st, times) == (IpState {
            request_count: (cfg.max_requests_per_ip + 1) as u32,
            window_start: times.last(),
            violations: times.len() as u32,
            blocked_until: st.blocked_until,
        }),
        run_outcome(
            cfg,
            run_excess_windows(cfg, st, times.drop_last()),
            times.last(),
            (cfg.max_requests_per_ip + 1) as nat,
        ) == (if times.len() >= cfg.violations_before_block {
            RequestOutcome::BlockRequired
        } else {
            RequestOutcome::RateLimited
        }),
    decreases times.len(),
{
    if times.len() == 1 {
        assert(times.drop_last() =~= Seq::<u64>::empty());
        lemma_window_with_excess(cfg, st, times[0]);
    } else {
        let head = times.drop_last();
        assert(head[0] == times[0]);
        assert forall|i: int| 1 <= i < head.len() implies #[trigger] head[i] > head[i - 1]
            + cfg.time_window_seconds by {
            assert(head[i] == times[i]);
            assert(head[i - 1] == times[i - 1]);
        }
        lemma_consecutive_excess_windows(cfg, st, head);
        let mid = run_excess_windows(cfg, st, head);
        assert(mid.window_start == head.last());
        assert(times.last() > times[times.len() - 2] + cfg.time_window_seconds);
        assert(head.last() == times[times.len() - 2]);
        lemma_window_with_excess(cfg, mid, times.last());
    }
}

/// Once a record's block has run out, the sweep keeps the record and
/// reports it, and lifting the block leaves the identity unblocked with
/// its violations cleared.
pub proof fn lemma_sweep_lifts_expired_block(
    cfg: DdosProtectionConfig,
    blocked: Map<Seq<char>, String>,
    states: Map<Seq<char>, IpState>,
    ip: Seq<char>,
    now: u64,
)
    requires
        states.contains_key(ip),
        block_expired(states[ip], now),
    ensures
        ({
            let after_sweep = swept_states(cfg, states, now);
            let after_lift = unblocked_states(after_sweep, ip);
            &&& after_sweep.contains_key(ip)
            &&& block_expired(after_sweep[ip], now)
            &&& after_lift.contains_key(ip)
            &&& after_lift[ip].violations == 0
            &&& after_lift[ip].blocked_until is None
            &&& !is_blocked_model(blocked.remove(ip), after_lift, ip, now)
        }),
{
}

/// Lifting a block twice leaves the state table exactly as lifting it
/// once does.
pub proof fn lemma_unblock_idempotent(states: Map<Seq<char>, IpState>, ip: Seq<char>)
    ensures
        unblocked_states(unblocked_states(states, ip), ip) == unblocked_states(states, ip),
{
    assert(unblocked_states(unblocked_states(states, ip), ip) =~= unblocked_states(states, ip));
}

} // verus!
