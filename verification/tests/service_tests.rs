//! The admission coordinator's state machine, end to end.

use ddos_protection::cloudflare::{
    CloudflareError, CloudflareResponse, CloudflareRulesManager, UnblockStep,
};
use ddos_protection::error::ServiceError;
use ddos_protection::service::{DdosProtectionConfig, DdosProtectionService, RequestOutcome};

fn config(max: u32, window: u64, violations: u32) -> DdosProtectionConfig {
    DdosProtectionConfig {
        max_requests_per_ip: max,
        time_window_seconds: window,
        violations_before_block: violations,
        block_duration_seconds: 3600,
    }
}

fn service(cfg: DdosProtectionConfig) -> DdosProtectionService {
    DdosProtectionService::new(CloudflareRulesManager::new(), cfg)
}

fn ok_response(rule_id: &str) -> CloudflareResponse<String> {
    CloudflareResponse {
        success: true,
        errors: vec![],
        messages: vec![],
        result: Some(rule_id.to_string()),
    }
}

fn rejected_response(message: &str) -> CloudflareResponse<String> {
    CloudflareResponse {
        success: false,
        errors: vec![CloudflareError { code: 10000, message: message.to_string() }],
        messages: vec![],
        result: None,
    }
}

/// Drives one identity to the point where the coordinator demands a
/// block, under a threshold of one violation: six requests into a
/// five-request window.
fn drive_to_block_required(svc: &mut DdosProtectionService, ip: &str, now: u64) {
    for _ in 0..5 {
        assert_eq!(svc.process_request(ip, now), RequestOutcome::Allowed);
    }
    assert_eq!(svc.process_request(ip, now), RequestOutcome::BlockRequired);
}

#[test]
fn first_request_is_allowed() {
    let mut svc = service(config(100, 60, 3));
    assert_eq!(svc.process_request("198.51.100.7", 0), RequestOutcome::Allowed);
    let (count, violations, blocked) = svc.get_ip_state("198.51.100.7");
    assert_eq!((count, violations, blocked), (1, 0, false));
}

#[test]
fn zero_budget_rejects_even_the_first_request() {
    // A window that admits no requests at all turns the very first
    // request into a violation.
    let mut svc = service(config(0, 60, 3));
    assert_eq!(svc.process_request("198.51.100.8", 0), RequestOutcome::RateLimited);
    let (count, violations, _) = svc.get_ip_state("198.51.100.8");
    assert_eq!(count, 1);
    assert_eq!(violations, 1);
}

#[test]
fn escalation_scenario() {
    // Config {max=5, window=10s, violations_before_block=3}; identity A
    // sends six requests in each of three windows.
    let mut svc = service(config(5, 10, 3));
    let ip = "203.0.113.9";
    let mut now: u64 = 0;
    for w in 0..3u32 {
        for _ in 0..5 {
            assert_eq!(svc.process_request(ip, now), RequestOutcome::Allowed);
        }
        let sixth = svc.process_request(ip, now);
        let (_, violations, _) = svc.get_ip_state(ip);
        assert_eq!(violations, w + 1);
        if w < 2 {
            assert_eq!(sixth, RequestOutcome::RateLimited);
        } else {
            assert_eq!(sixth, RequestOutcome::BlockRequired);
        }
        now += 11;
    }
    // The firewall accepts the rule: the registry records it and the
    // identity is blocked.
    assert!(svc.apply_block_outcome(ip, 22, &ok_response("rule-123")).is_ok());
    assert!(svc.is_ip_blocked(ip, 23));
    assert_eq!(svc.rules_manager.get_rule_id_for_ip(ip), Some("rule-123".to_string()));
    let (_, _, blocked) = svc.get_ip_state(ip);
    assert!(blocked);
}

#[test]
fn rejected_block_leaves_state_warned() {
    // The enforcer answers success:false: the error is surfaced, no
    // block is recorded, and the next violation can retry.
    let mut svc = service(config(5, 10, 1));
    let ip = "203.0.113.17";
    drive_to_block_required(&mut svc, ip, 0);
    let result = svc.apply_block_outcome(ip, 0, &rejected_response("zone is read-only"));
    match result {
        Err(ServiceError::CloudflareError(m)) => assert_eq!(m, "zone is read-only"),
        _ => panic!("expected the enforcer's rejection to be surfaced"),
    }
    let (_, violations, blocked) = svc.get_ip_state(ip);
    assert!(!blocked, "blocked_until must not be set after a rejected block");
    assert_eq!(violations, 1);
    assert!(!svc.is_ip_blocked(ip, 0));
    assert_eq!(svc.process_request(ip, 0), RequestOutcome::BlockRequired);
}

#[test]
fn unblock_of_clear_identity_is_noop() {
    let svc = service(config(5, 10, 3));
    assert!(matches!(svc.unblock_ip("192.0.2.1"), UnblockStep::NotBlocked));
}

#[test]
fn sweep_reports_expired_block_and_unblock_clears() {
    let mut svc = service(config(5, 10, 1));
    let ip = "203.0.113.30";
    drive_to_block_required(&mut svc, ip, 0);
    assert!(svc.apply_block_outcome(ip, 0, &ok_response("rule-9")).is_ok());
    assert!(svc.is_ip_blocked(ip, 100));

    // Before the block runs out the sweep reports nothing.
    let expired = svc.cleanup_expired_states(100);
    assert!(expired.is_empty());
    assert!(svc.is_ip_blocked(ip, 100));

    // Once blocked_until has passed the sweep reports the identity.
    let expired = svc.cleanup_expired_states(3600);
    assert_eq!(expired.len(), 1);
    assert_eq!(expired[0], ip);

    // Lifting the block clears the registry record and the violations.
    match svc.unblock_ip(ip) {
        UnblockStep::DeleteRule(rid) => assert_eq!(rid, "rule-9"),
        UnblockStep::NotBlocked => panic!("a blocked identity must carry a rule"),
    }
    svc.finish_unblock(ip, true);
    assert!(!svc.is_ip_blocked(ip, 3600));
    let (_, violations, blocked) = svc.get_ip_state(ip);
    assert_eq!(violations, 0);
    assert!(!blocked);
}

#[test]
fn failed_unblock_is_retried_by_the_next_sweep() {
    let mut svc = service(config(5, 10, 1));
    let ip = "203.0.113.31";
    drive_to_block_required(&mut svc, ip, 0);
    assert!(svc.apply_block_outcome(ip, 0, &ok_response("rule-11")).is_ok());

    let expired = svc.cleanup_expired_states(4000);
    assert_eq!(expired, vec![ip.to_string()]);
    // The deletion fails: the record is retained with the same rule id.
    svc.finish_unblock(ip, false);
    assert!(svc.is_ip_blocked(ip, 4000));
    assert_eq!(svc.rules_manager.get_rule_id_for_ip(ip), Some("rule-11".to_string()));
    let expired = svc.cleanup_expired_states(4100);
    assert_eq!(expired, vec![ip.to_string()]);
}

#[test]
fn blocked_identity_is_turned_away_uncounted() {
    let mut svc = service(config(5, 10, 1));
    let ip = "203.0.113.32";
    drive_to_block_required(&mut svc, ip, 0);
    assert!(svc.apply_block_outcome(ip, 0, &ok_response("rule-5")).is_ok());
    let (count_before, violations_before, _) = svc.get_ip_state(ip);
    assert_eq!(svc.process_request(ip, 1), RequestOutcome::Blocked);
    let (count_after, violations_after, _) = svc.get_ip_state(ip);
    assert_eq!(count_before, count_after);
    assert_eq!(violations_before, violations_after);
}

#[test]
fn sweep_drops_idle_records() {
    let mut svc = service(config(5, 10, 3));
    let ip = "198.51.100.40";
    assert_eq!(svc.process_request(ip, 0), RequestOutcome::Allowed);
    let (count, _, _) = svc.get_ip_state(ip);
    assert_eq!(count, 1);
    // The window is over, no violations, no block: the record goes.
    let expired = svc.cleanup_expired_states(11);
    assert!(expired.is_empty());
    assert_eq!(svc.get_ip_state(ip), (0, 0, false));
}

#[test]
fn window_reset_restarts_the_count() {
    let mut svc = service(config(2, 10, 3));
    let ip = "198.51.100.41";
    assert_eq!(svc.process_request(ip, 0), RequestOutcome::Allowed);
    assert_eq!(svc.process_request(ip, 0), RequestOutcome::Allowed);
    assert_eq!(svc.process_request(ip, 0), RequestOutcome::RateLimited);
    // A request after the window has elapsed starts a fresh count.
    assert_eq!(svc.process_request(ip, 11), RequestOutcome::Allowed);
    let (count, violations, _) = svc.get_ip_state(ip);
    assert_eq!(count, 1);
    // Violations persist until an explicit unblock.
    assert_eq!(violations, 1);
}

#[test]
fn block_rule_request_names_the_identity() {
    let svc = service(config(5, 10, 3));
    let rule = svc.block_rule_request("203.0.113.77");
    assert_eq!(rule.expression, "ip.src eq 203.0.113.77");
    assert_eq!(rule.action, "block");
    assert_eq!(rule.description, "Block IP 203.0.113.77 - DDoS Protection");
}

#[test]
fn default_config_matches_the_stock_values() {
    let cfg = DdosProtectionConfig::default();
    assert_eq!(cfg.max_requests_per_ip, 100);
    assert_eq!(cfg.time_window_seconds, 60);
    assert_eq!(cfg.violations_before_block, 3);
    assert_eq!(cfg.block_duration_seconds, 3600);
}
