//! The block registry and the typed envelopes of the firewall API.
//!
//! Every firewall reply is decoded into a [`CloudflareResponse`] at the
//! transport boundary; this module never inspects untyped payloads.  The
//! registry keeps the rule identifiers needed to later lift a block: one
//! cache keyed by rule description for each rule family, and one keyed by
//! identity for the hot block/unblock path.  The network call itself sits
//! between the two halves of each operation — the caller builds the rule
//! request here, performs the call, and hands the reply back here.

use vstd::prelude::*;
use crate::error::ServiceError;
use crate::str_map::StringMap;
use crate::text::{concat_str, prefix_before, prefix_before_char};

verus! {

/// One error reported in a firewall API reply.
#[derive(Debug, Clone)]
pub struct CloudflareError {
    /// The API's numeric error code.
    pub code: i32,
    /// The API's error message.
    pub message: String,
}

/// The typed envelope of a firewall API reply.
#[derive(Debug)]
pub struct CloudflareResponse<T> {
    /// The reply's own success flag; false even on a transport-level
    /// success is a rejection.
    pub success: bool,
    /// The errors reported on failure.
    pub errors: Vec<CloudflareError>,
    /// Informational messages.
    pub messages: Vec<String>,
    /// The payload, when one was returned.
    pub result: Option<T>,
}

impl<T> CloudflareResponse<T> {
    /// The message surfaced for a rejected reply: the first reported
    /// error, or a fixed fallback when the reply carried none.
    pub open spec fn first_error_spec(self) -> Seq<char> {
        if self.errors@.len() > 0 {
            self.errors@[0].message@
        } else {
            "Unknown error"@
        }
    }

    /// Extracts the message surfaced for a rejected reply.
    pub fn first_error_message(&self) -> (m: String)
        ensures
            m@ == self.first_error_spec(),
    {
        if self.errors.len() > 0 {
            self.errors[0].message.clone()
        } else {
            String::from_str("Unknown error")
        }
    }
}

/// A firewall rule request: deny traffic matching an expression.
#[derive(Debug, Clone)]
pub struct FirewallRule {
    /// Human-readable description, also used as a cache key.
    pub description: String,
    /// The match expression.
    pub expression: String,
    /// The action taken on a match.
    pub action: String,
}

/// A rate-limit rule request.
#[derive(Debug, Clone)]
pub struct RateLimitRule {
    /// Human-readable description, also used as a cache key.
    pub description: String,
    /// The match expression.
    pub match_expr: String,
    /// The action taken past the threshold.
    pub action: String,
    /// Requests allowed within the period.
    pub threshold: i32,
    /// The period, in seconds.
    pub period: i32,
}

/// Builds the deny rule that blocks `ip` by source-address equality.
pub fn make_block_rule(ip: &str, description: &str) -> (r: FirewallRule)
    ensures
        r.description@ == description@,
        r.expression@ == "ip.src eq "@ + ip@,
        r.action@ == "block"@,
{
    FirewallRule {
        description: String::from_str(description),
        expression: concat_str("ip.src eq ", ip),
        action: String::from_str("block"),
    }
}

/// Builds a rate-limit rule that blocks all requests past `threshold`
/// per `period` seconds.
pub fn make_rate_limit_rule(description: &str, threshold: i32, period: i32) -> (r: RateLimitRule)
    ensures
        r.description@ == description@,
        r.match_expr@ == "true"@,
        r.action@ == "block"@,
        r.threshold == threshold,
        r.period == period,
{
    RateLimitRule {
        description: String::from_str(description),
        match_expr: String::from_str("true"),
        action: String::from_str("block"),
        threshold,
        period,
    }
}

/// What the caller must do to lift a block.
#[derive(Debug)]
pub enum UnblockStep {
    /// The identity has no recorded rule: nothing to do.
    NotBlocked,
    /// Delete this rule at the firewall, then report the outcome.
    DeleteRule(String),
}

/// A string-valued map as the specifications see it: keys to key views.
pub open spec fn str_view(m: Map<Seq<char>, String>) -> Map<Seq<char>, Seq<char>> {
    Map::new(|k: Seq<char>| m.contains_key(k), |k: Seq<char>| m[k]@)
}

/// The rule-id prefixes of a listing's descriptions: each description
/// embeds its rule id before the first `:`.
pub open spec fn fw_prefix_seq(rules: Seq<FirewallRule>) -> Seq<Seq<char>> {
    rules.map_values(|r: FirewallRule| prefix_before(r.description@, ':'))
}

/// As [`fw_prefix_seq`], for rate-limit rules.
pub open spec fn rl_prefix_seq(rules: Seq<RateLimitRule>) -> Seq<Seq<char>> {
    rules.map_values(|r: RateLimitRule| prefix_before(r.description@, ':'))
}

/// A cache seeded with one entry per listed prefix, each mapping the
/// prefix to itself.
pub open spec fn seed_cache(m: Map<Seq<char>, Seq<char>>, pfxs: Seq<Seq<char>>) -> Map<
    Seq<char>,
    Seq<char>,
>
    decreases pfxs.len(),
{
    if pfxs.len() == 0 {
        m
    } else {
        seed_cache(m, pfxs.drop_last()).insert(pfxs.last(), pfxs.last())
    }
}

proof fn lemma_str_view_insert(m: Map<Seq<char>, String>, k: Seq<char>, v: String)
    ensures
        str_view(m.insert(k, v)) =~= str_view(m).insert(k, v@),
{
}

/// Maintains the local record of firewall and rate-limit rules.
pub struct CloudflareRulesManager {
    /// Firewall rules by description.
    pub firewall_rules: StringMap<String>,
    /// Rate-limit rules by description.
    pub rate_limit_rules: StringMap<String>,
    /// Blocking rules by identity, for the hot block/unblock path.
    pub ip_rule_ids: StringMap<String>,
}

impl CloudflareRulesManager {
    /// Creates a manager with empty caches.
    pub fn new() -> (r: Self)
        ensures
            r.firewall_rules@ == Map::<Seq<char>, String>::empty(),
            r.rate_limit_rules@ == Map::<Seq<char>, String>::empty(),
            r.ip_rule_ids@ == Map::<Seq<char>, String>::empty(),
    {
        CloudflareRulesManager {
            firewall_rules: StringMap::new(),
            rate_limit_rules: StringMap::new(),
            ip_rule_ids: StringMap::new(),
        }
    }

    /// Seeds the caches from listings already fetched from the firewall:
    /// for every listed rule, the prefix of its description before the
    /// first `:` is recorded as that rule's identifier.
    pub fn initialize(&mut self, firewall: &Vec<FirewallRule>, rate_limits: &Vec<RateLimitRule>)
        ensures
            str_view(final(self).firewall_rules@) == seed_cache(
                str_view(old(self).firewall_rules@),
                fw_prefix_seq(firewall@),
            ),
            str_view(final(self).rate_limit_rules@) == seed_cache(
                str_view(old(self).rate_limit_rules@),
                rl_prefix_seq(rate_limits@),
            ),
            final(self).ip_rule_ids@ == old(self).ip_rule_ids@,
    {
        let n = firewall.len();
        let mut i: usize = 0;
        while i < n
            invariant
                n == firewall@.len(),
                i <= n,
                str_view(self.firewall_rules@) =~= seed_cache(
                    str_view(old(self).firewall_rules@),
                    fw_prefix_seq(firewall@.subrange(0, i as int)),
                ),
                self.rate_limit_rules@ == old(self).rate_limit_rules@,
                self.ip_rule_ids@ == old(self).ip_rule_ids@,
            decreases n - i,
        {
            let rid = prefix_before_char(firewall[i].description.as_str(), ':');
            let key = rid.clone();
            proof {
                lemma_str_view_insert(self.firewall_rules@, key@, rid);
                assert(fw_prefix_seq(firewall@.subrange(0, i + 1 as int)).drop_last()
                    =~= fw_prefix_seq(firewall@.subrange(0, i as int)));
                assert(fw_prefix_seq(firewall@.subrange(0, i + 1 as int)).last() == rid@);
            }
            self.firewall_rules.insert(key, rid);
            i += 1;
        }
        proof {
            assert(firewall@.subrange(0, n as int) =~= firewall@);
        }
        let m = rate_limits.len();
        let mut j: usize = 0;
        while j < m
            invariant
                m == rate_limits@.len(),
                j <= m,
                str_view(self.firewall_rules@) =~= seed_cache(
                    str_view(old(self).firewall_rules@),
                    fw_prefix_seq(firewall@),
                ),
                str_view(self.rate_limit_rules@) =~= seed_cache(
                    str_view(old(self).rate_limit_rules@),
                    rl_prefix_seq(rate_limits@.subrange(0, j as int)),
                ),
                self.ip_rule_ids@ == old(self).ip_rule_ids@,
            decreases m - j,
        {
            let rid = prefix_before_char(rate_limits[j].description.as_str(), ':');
            let key = rid.clone();
            proof {
                lemma_str_view_insert(self.rate_limit_rules@, key@, rid);
                assert(rl_prefix_seq(rate_limits@.subrange(0, j + 1 as int)).drop_last()
                    =~= rl_prefix_seq(rate_limits@.subrange(0, j as int)));
                assert(rl_prefix_seq(rate_limits@.subrange(0, j + 1 as int)).last() == rid@);
            }
            self.rate_limit_rules.insert(key, rid);
            j += 1;
        }
        proof {
            assert(rate_limits@.subrange(0, m as int) =~= rate_limits@);
        }
    }

    /// Records the firewall's reply to a block request for `ip`.  A
    /// rejected reply surfaces the reply's error and leaves the caches
    /// untouched; a successful one records the returned rule id under
    /// both the description and the identity.
    pub fn block_ip(&mut self, ip: &str, description: &str, response: &CloudflareResponse<String>)
        -> (r: Result<(), ServiceError>)
        ensures
            final(self).rate_limit_rules@ == old(self).rate_limit_rules@,
            !response.success ==> {
                &&& r matches Err(ServiceError::CloudflareError(m)) && m@
                    == response.first_error_spec()
                &&& final(self).firewall_rules@ == old(self).firewall_rules@
                &&& final(self).ip_rule_ids@ == old(self).ip_rule_ids@
            },
            response.success ==> r is Ok && (match response.result {
                Some(rid) => final(self).firewall_rules@ == old(self).firewall_rules@.insert(
                    description@,
                    rid,
                ) && final(self).ip_rule_ids@ == old(self).ip_rule_ids@.insert(ip@, rid),
                None => final(self).firewall_rules@ == old(self).firewall_rules@
                    && final(self).ip_rule_ids@ == old(self).ip_rule_ids@,
            }),
    {
        if !response.success {
            return Err(ServiceError::CloudflareError(response.first_error_message()));
        }
        if let Some(rule_id) = &response.result {
            self.firewall_rules.insert(String::from_str(description), rule_id.clone());
            self.ip_rule_ids.insert(String::from_str(ip), rule_id.clone());
        }
        Ok(())
    }

    /// Records the firewall's reply to a rate-limit rule creation; same
    /// discipline as [`Self::block_ip`], on the rate-limit cache.
    pub fn create_rate_limit(&mut self, description: &str, response: &CloudflareResponse<String>)
        -> (r: Result<(), ServiceError>)
        ensures
            final(self).firewall_rules@ == old(self).firewall_rules@,
            final(self).ip_rule_ids@ == old(self).ip_rule_ids@,
            !response.success ==> {
                &&& r matches Err(ServiceError::CloudflareError(m)) && m@
                    == response.first_error_spec()
                &&& final(self).rate_limit_rules@ == old(self).rate_limit_rules@
            },
            response.success ==> r is Ok && (match response.result {
                Some(rid) => final(self).rate_limit_rules@
                    == old(self).rate_limit_rules@.insert(description@, rid),
                None => final(self).rate_limit_rules@ == old(self).rate_limit_rules@,
            }),
    {
        if !response.success {
            return Err(ServiceError::CloudflareError(response.first_error_message()));
        }
        if let Some(rule_id) = &response.result {
            self.rate_limit_rules.insert(String::from_str(description), rule_id.clone());
        }
        Ok(())
    }

    /// Begins lifting the block on `ip`: a no-op when no rule is
    /// recorded, otherwise the rule the caller must delete.
    pub fn unblock_ip(&self, ip: &str) -> (r: UnblockStep)
        ensures
            match r {
                UnblockStep::NotBlocked => !self.ip_rule_ids@.contains_key(ip@),
                UnblockStep::DeleteRule(rid) => self.ip_rule_ids@.contains_key(ip@) && rid
                    == self.ip_rule_ids@[ip@],
            },
    {
        match self.ip_rule_ids.get(ip) {
            None => UnblockStep::NotBlocked,
            Some(rid) => UnblockStep::DeleteRule(rid.clone()),
        }
    }

    /// Records the outcome of the deletion begun by [`Self::unblock_ip`]:
    /// the local record is dropped only when the deletion succeeded, so a
    /// failed deletion can be retried with the same rule id.
    pub fn finish_unblock(&mut self, ip: &str, deleted: bool)
        ensures
            final(self).firewall_rules@ == old(self).firewall_rules@,
            final(self).rate_limit_rules@ == old(self).rate_limit_rules@,
            final(self).ip_rule_ids@ == if deleted {
                old(self).ip_rule_ids@.remove(ip@)
            } else {
                old(self).ip_rule_ids@
            },
    {
        if deleted {
            self.ip_rule_ids.remove(ip);
        }
    }

    /// Reports whether a blocking rule is recorded for `ip`; a pure local
    /// lookup that never consults the firewall.
    pub fn is_ip_blocked(&self, ip: &str) -> (r: bool)
        ensures
            r == self.ip_rule_ids@.contains_key(ip@),
    {
        self.ip_rule_ids.contains_key(ip)
    }

    /// Lists the identities with a recorded blocking rule, each once,
    /// in the order their rules were recorded.
    pub fn get_blocked_ips(&self) -> (ips: Vec<String>)
        ensures
            ips@.map_values(|s: String| s@) == self.ip_rule_ids.key_seq(),
            ips@.map_values(|s: String| s@).to_set() =~= self.ip_rule_ids@.dom(),
            ips@.map_values(|s: String| s@).no_duplicates(),
    {
        self.ip_rule_ids.keys()
    }

    /// Looks up the rule id recorded for `ip`.
    pub fn get_rule_id_for_ip(&self, ip: &str) -> (r: Option<String>)
        ensures
            match r {
                Some(rid) => self.ip_rule_ids@.contains_key(ip@) && rid == self.ip_rule_ids@[ip@],
                None => !self.ip_rule_ids@.contains_key(ip@),
            },
    {
        match self.ip_rule_ids.get(ip) {
            Some(rid) => Some(rid.clone()),
            None => None,
        }
    }

    /// Looks up the cached firewall rule id for a description.
    pub fn firewall_rule_id(&self, description: &str) -> (r: Option<String>)
        ensures
            match r {
                Some(rid) => self.firewall_rules@.contains_key(description@) && rid
                    == self.firewall_rules@[description@],
                None => !self.firewall_rules@.contains_key(description@),
            },
    {
        match self.firewall_rules.get(description) {
            Some(rid) => Some(rid.clone()),
            None => None,
        }
    }

    /// Looks up the cached rate-limit rule id for a description.
    pub fn rate_limit_rule_id(&self, description: &str) -> (r: Option<String>)
        ensures
            match r {
                Some(rid) => self.rate_limit_rules@.contains_key(description@) && rid
                    == self.rate_limit_rules@[description@],
                None => !self.rate_limit_rules@.contains_key(description@),
            },
    {
        match self.rate_limit_rules.get(description) {
            Some(rid) => Some(rid.clone()),
            None => None,
        }
    }

    /// Records the firewall's reply to the deletion of the firewall rule
    /// cached under `description`: the cache entry is dropped exactly
    /// when the reply reports success.
    pub fn remove_firewall_rule(
        &mut self,
        description: &str,
        response: &CloudflareResponse<String>,
    ) -> (r: Result<(), ServiceError>)
        ensures
            final(self).rate_limit_rules@ == old(self).rate_limit_rules@,
            final(self).ip_rule_ids@ == old(self).ip_rule_ids@,
            if response.success {
                r is Ok && final(self).firewall_rules@ == old(self).firewall_rules@.remove(
                    description@,
                )
            } else {
                (r matches Err(ServiceError::CloudflareError(m)) && m@
                    == response.first_error_spec()) && final(self).firewall_rules@
                    == old(self).firewall_rules@
            },
    {
        if !response.success {
            return Err(ServiceError::CloudflareError(response.first_error_message()));
        }
        self.firewall_rules.remove(description);
        Ok(())
    }

    /// As [`Self::remove_firewall_rule`], for the rate-limit cache.
    pub fn remove_rate_limit_rule(
        &mut self,
        description: &str,
        response: &CloudflareResponse<String>,
    ) -> (r: Result<(), ServiceError>)
        ensures
            final(self).firewall_rules@ == old(self).firewall_rules@,
            final(self).ip_rule_ids@ == old(self).ip_rule_ids@,
            if response.success {
                r is Ok && final(self).rate_limit_rules@ == old(self).rate_limit_rules@.remove(
                    description@,
                )
            } else {
                (r matches Err(ServiceError::CloudflareError(m)) && m@
                    == response.first_error_spec()) && final(self).rate_limit_rules@
                    == old(self).rate_limit_rules@
            },
    {
        if !response.success {
            return Err(ServiceError::CloudflareError(response.first_error_message()));
        }
        self.rate_limit_rules.remove(description);
        Ok(())
    }

    /// Unwraps a rule listing reply: the listed rules on success, the
    /// reply's error otherwise.
    pub fn list_firewall_rules(&self, response: CloudflareResponse<Vec<FirewallRule>>) -> (r:
        Result<Vec<FirewallRule>, ServiceError>)
        ensures
            if response.success {
                r matches Ok(v) && v@ == (match response.result {
                    Some(rules) => rules@,
                    None => Seq::<FirewallRule>::empty(),
                })
            } else {
                r matches Err(ServiceError::CloudflareError(m)) && m@
                    == response.first_error_spec()
            },
    {
        if !response.success {
            return Err(ServiceError::CloudflareError(response.first_error_message()));
        }
        match response.result {
            Some(rules) => Ok(rules),
            None => Ok(Vec::new()),
        }
    }

    /// As [`Self::list_firewall_rules`], for rate-limit rules.
    pub fn list_rate_limit_rules(&self, response: CloudflareResponse<Vec<RateLimitRule>>) -> (r:
        Result<Vec<RateLimitRule>, ServiceError>)
        ensures
            if response.success {
                r matches Ok(v) && v@ == (match response.result {
                    Some(rules) => rules@,
                    None => Seq::<RateLimitRule>::empty(),
                })
            } else {
                r matches Err(ServiceError::CloudflareError(m)) && m@
                    == response.first_error_spec()
            },
    {
        if !response.success {
            return Err(ServiceError::CloudflareError(response.first_error_message()));
        }
        match response.result {
            Some(rules) => Ok(rules),
            None => Ok(Vec::new()),
        }
    }
}

} // verus!
