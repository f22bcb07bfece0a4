//! The block registry's bookkeeping around the firewall's replies.

use ddos_protection::cloudflare::{
    make_block_rule, make_rate_limit_rule, CloudflareError, CloudflareResponse,
    CloudflareRulesManager, FirewallRule, RateLimitRule, UnblockStep,
};
use ddos_protection::error::ServiceError;

fn ok_response(rule_id: &str) -> CloudflareResponse<String> {
    CloudflareResponse {
        success: true,
        errors: vec![],
        messages: vec![],
        result: Some(rule_id.to_string()),
    }
}

fn rejected_response(message: &str) -> CloudflareResponse<String> {
    CloudflareResponse {
        success: false,
        errors: vec![CloudflareError { code: 10102, message: message.to_string() }],
        messages: vec![],
        result: None,
    }
}

fn firewall_rule(description: &str) -> FirewallRule {
    FirewallRule {
        description: description.to_string(),
        expression: "ip.src eq 192.0.2.10".to_string(),
        action: "block".to_string(),
    }
}

fn rate_limit_rule(description: &str) -> RateLimitRule {
    RateLimitRule {
        description: description.to_string(),
        match_expr: "true".to_string(),
        action: "block".to_string(),
        threshold: 100,
        period: 60,
    }
}

#[test]
fn block_rule_builder_embeds_the_identity() {
    let rule = make_block_rule("192.0.2.10", "Block IP 192.0.2.10 - DDoS Protection");
    assert_eq!(rule.expression, "ip.src eq 192.0.2.10");
    assert_eq!(rule.action, "block");
    assert_eq!(rule.description, "Block IP 192.0.2.10 - DDoS Protection");
}

#[test]
fn rate_limit_rule_builder_applies_to_all_requests() {
    let rule = make_rate_limit_rule("global limit", 100, 60);
    assert_eq!(rule.match_expr, "true");
    assert_eq!(rule.action, "block");
    assert_eq!(rule.threshold, 100);
    assert_eq!(rule.period, 60);
}

#[test]
fn successful_block_records_the_rule() {
    let mut mgr = CloudflareRulesManager::new();
    assert!(mgr.block_ip("192.0.2.10", "deny 192.0.2.10", &ok_response("fw-1")).is_ok());
    assert!(mgr.is_ip_blocked("192.0.2.10"));
    assert_eq!(mgr.get_rule_id_for_ip("192.0.2.10"), Some("fw-1".to_string()));
    assert_eq!(mgr.firewall_rule_id("deny 192.0.2.10"), Some("fw-1".to_string()));
    assert_eq!(mgr.get_blocked_ips(), vec!["192.0.2.10".to_string()]);
}

#[test]
fn rejected_block_performs_no_bookkeeping() {
    let mut mgr = CloudflareRulesManager::new();
    let result = mgr.block_ip("192.0.2.11", "deny 192.0.2.11", &rejected_response("bad token"));
    assert!(matches!(result, Err(ServiceError::CloudflareError(m)) if m == "bad token"));
    assert!(!mgr.is_ip_blocked("192.0.2.11"));
    assert_eq!(mgr.get_rule_id_for_ip("192.0.2.11"), None);
    assert_eq!(mgr.firewall_rule_id("deny 192.0.2.11"), None);
}

#[test]
fn success_without_rule_id_records_nothing() {
    let mut mgr = CloudflareRulesManager::new();
    let response = CloudflareResponse::<String> {
        success: true,
        errors: vec![],
        messages: vec![],
        result: None,
    };
    assert!(mgr.block_ip("192.0.2.12", "deny 192.0.2.12", &response).is_ok());
    assert!(!mgr.is_ip_blocked("192.0.2.12"));
}

#[test]
fn rejection_without_errors_reads_unknown_error() {
    let response = CloudflareResponse::<String> {
        success: false,
        errors: vec![],
        messages: vec![],
        result: None,
    };
    assert_eq!(response.first_error_message(), "Unknown error");
    let mut mgr = CloudflareRulesManager::new();
    let result = mgr.block_ip("192.0.2.13", "deny 192.0.2.13", &response);
    assert!(matches!(result, Err(ServiceError::CloudflareError(m)) if m == "Unknown error"));
}

#[test]
fn initialize_seeds_the_caches_from_description_prefixes() {
    let mut mgr = CloudflareRulesManager::new();
    let firewall = vec![
        firewall_rule("fw1:deny a scanner"),
        firewall_rule("plain description"),
    ];
    let rate_limits = vec![rate_limit_rule("rl7:global limit")];
    mgr.initialize(&firewall, &rate_limits);
    assert_eq!(mgr.firewall_rule_id("fw1"), Some("fw1".to_string()));
    assert_eq!(mgr.firewall_rule_id("plain description"), Some("plain description".to_string()));
    assert_eq!(mgr.rate_limit_rule_id("rl7"), Some("rl7".to_string()));
    assert_eq!(mgr.firewall_rule_id("rl7"), None);
}

#[test]
fn create_rate_limit_records_and_removes() {
    let mut mgr = CloudflareRulesManager::new();
    assert!(mgr.create_rate_limit("global limit", &ok_response("rl-1")).is_ok());
    assert_eq!(mgr.rate_limit_rule_id("global limit"), Some("rl-1".to_string()));
    // A failed deletion keeps the cache entry.
    let result = mgr.remove_rate_limit_rule("global limit", &rejected_response("denied"));
    assert!(result.is_err());
    assert_eq!(mgr.rate_limit_rule_id("global limit"), Some("rl-1".to_string()));
    // A successful deletion drops it.
    assert!(mgr.remove_rate_limit_rule("global limit", &ok_response("rl-1")).is_ok());
    assert_eq!(mgr.rate_limit_rule_id("global limit"), None);
}

#[test]
fn remove_firewall_rule_follows_the_reply() {
    let mut mgr = CloudflareRulesManager::new();
    assert!(mgr.block_ip("192.0.2.14", "deny 192.0.2.14", &ok_response("fw-3")).is_ok());
    let result = mgr.remove_firewall_rule("deny 192.0.2.14", &rejected_response("not found"));
    assert!(matches!(result, Err(ServiceError::CloudflareError(m)) if m == "not found"));
    assert_eq!(mgr.firewall_rule_id("deny 192.0.2.14"), Some("fw-3".to_string()));
    assert!(mgr.remove_firewall_rule("deny 192.0.2.14", &ok_response("fw-3")).is_ok());
    assert_eq!(mgr.firewall_rule_id("deny 192.0.2.14"), None);
}

#[test]
fn unblock_keeps_the_record_until_deletion_succeeds() {
    let mut mgr = CloudflareRulesManager::new();
    assert!(mgr.block_ip("192.0.2.15", "deny 192.0.2.15", &ok_response("fw-4")).is_ok());
    match mgr.unblock_ip("192.0.2.15") {
        UnblockStep::DeleteRule(rid) => assert_eq!(rid, "fw-4"),
        UnblockStep::NotBlocked => panic!("a recorded identity must yield its rule"),
    }
    mgr.finish_unblock("192.0.2.15", false);
    assert!(mgr.is_ip_blocked("192.0.2.15"));
    mgr.finish_unblock("192.0.2.15", true);
    assert!(!mgr.is_ip_blocked("192.0.2.15"));
    assert!(matches!(mgr.unblock_ip("192.0.2.15"), UnblockStep::NotBlocked));
}

#[test]
fn listing_unwraps_the_reply() {
    let mgr = CloudflareRulesManager::new();
    let listed = CloudflareResponse {
        success: true,
        errors: vec![],
        messages: vec![],
        result: Some(vec![firewall_rule("fw1:x")]),
    };
    let rules = mgr.list_firewall_rules(listed).unwrap();
    assert_eq!(rules.len(), 1);
    assert_eq!(rules[0].description, "fw1:x");

    let empty = CloudflareResponse::<Vec<FirewallRule>> {
        success: true,
        errors: vec![],
        messages: vec![],
        result: None,
    };
    assert!(mgr.list_firewall_rules(empty).unwrap().is_empty());

    let failed = CloudflareResponse::<Vec<RateLimitRule>> {
        success: false,
        errors: vec![CloudflareError { code: 9103, message: "unauthorized".to_string() }],
        messages: vec![],
        result: None,
    };
    let result = mgr.list_rate_limit_rules(failed);
    assert!(matches!(result, Err(ServiceError::CloudflareError(m)) if m == "unauthorized"));
}
