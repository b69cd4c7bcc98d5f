use limiteron::circuit_breaker::{CircuitBreaker, CircuitBreakerConfig};
use limiteron::config::history::{ChangeSource, ConfigChangeRecord, ConfigHistory};
use limiteron::config::names::{Action, BanScope, LimiterTypeName, StorageType};
use limiteron::custom_limiter::{LeakyBucketLimiter, LimiterStats, TokenBucketLimiter};
use limiteron::db_storage::escape_string;
use limiteron::decision_chain::{DecisionChain, DecisionNode};
use limiteron::error::{CircuitState, Decision, LimiteronError};
use limiteron::time::Duration;

const SEC: u64 = 1_000_000_000;

#[test]
fn law_breaker_opens_after_threshold_failures() {
    let cfg = CircuitBreakerConfig::new(3, 2, Duration::from_secs(30));
    let mut b = CircuitBreaker::with_dependencies_at(cfg, 0);
    for i in 0..3u64 {
        assert!(b.try_acquire_at(i * SEC).is_ok());
        b.on_failure_at(i * SEC);
    }
    assert_eq!(b.get_state(), CircuitState::Open);
    assert!(b.try_acquire_at(10 * SEC).is_err());
}

#[test]
fn law_breaker_half_opens_after_timeout_and_closes_on_successes() {
    let cfg = CircuitBreakerConfig::new(1, 2, Duration::from_secs(30));
    let mut b = CircuitBreaker::with_dependencies_at(cfg, 0);
    assert!(b.try_acquire_at(0).is_ok());
    b.on_failure_at(0);
    assert_eq!(b.get_state(), CircuitState::Open);
    assert!(b.try_acquire_at(31 * SEC).is_ok());
    assert_eq!(b.get_state(), CircuitState::HalfOpen);
    b.on_success_at(31 * SEC);
    assert_eq!(b.get_state(), CircuitState::HalfOpen);
    b.on_success_at(32 * SEC);
    assert_eq!(b.get_state(), CircuitState::Closed);
}

#[test]
fn law_breaker_half_open_failure_reopens() {
    let cfg = CircuitBreakerConfig::new(1, 2, Duration::from_secs(30));
    let mut b = CircuitBreaker::with_dependencies_at(cfg, 0);
    assert!(b.try_acquire_at(0).is_ok());
    b.on_failure_at(0);
    assert!(b.try_acquire_at(40 * SEC).is_ok());
    b.on_failure_at(40 * SEC);
    assert_eq!(b.get_state(), CircuitState::Open);
}

#[test]
fn law_token_bucket_spends_and_refills() {
    let mut t = TokenBucketLimiter::new_at(10, 2, 0);
    assert_eq!(t.tokens(), 10);
    assert!(t.allow_at(7, 0));
    assert_eq!(t.tokens(), 3);
    assert!(!t.allow_at(4, 0));
    assert_eq!(t.tokens(), 3);
    assert!(t.allow_at(4, SEC));
    assert_eq!(t.tokens(), 1);
    t.refill_tokens_at(100 * SEC);
    assert_eq!(t.tokens(), 10);
}

#[test]
fn law_leaky_bucket_stays_within_capacity() {
    let mut l = LeakyBucketLimiter::new(3, 1);
    assert!(l.allow_at(2, 0));
    assert!(l.allow_at(1, 0));
    assert!(!l.allow_at(1, 0));
    assert_eq!(l.current(), 3);
    assert!(l.allow_at(1, 2 * SEC));
    assert!(l.current() <= 3);
}

#[test]
fn law_stats_record_counts() {
    let mut s = LimiterStats::new();
    s.record(true);
    s.record(false);
    s.record(true);
    assert_eq!(s.total_requests, 3);
    assert_eq!(s.allowed_requests, 2);
    assert_eq!(s.rejected_requests, 1);
    assert_eq!(s.total_requests, s.allowed_requests + s.rejected_requests);
}

#[test]
fn law_chain_all_pass_allows_and_counts() {
    let a = DecisionNode::new("a".to_string(), "A".to_string(), TokenBucketLimiter::new(10, 1), 10);
    let b = DecisionNode::new("b".to_string(), "B".to_string(), TokenBucketLimiter::new(10, 1), 20);
    let mut chain = DecisionChain::new(vec![a, b]);
    let d = chain.decide(vec![Ok(true), Ok(true)], 5).unwrap();
    assert!(matches!(d, Decision::Allowed(_)));
    let d = chain.decide(vec![Ok(false)], 5).unwrap();
    assert!(matches!(d, Decision::Rejected(_)));
    let stats = chain.stats();
    assert_eq!(stats.total_checks, 2);
    assert_eq!(stats.allowed_count + stats.rejected_count + stats.error_count, 2);
}

#[test]
fn law_chain_keeps_priority_order() {
    let low = DecisionNode::new("low".to_string(), "L".to_string(), TokenBucketLimiter::new(1, 1), 1);
    let high = DecisionNode::new("high".to_string(), "H".to_string(), TokenBucketLimiter::new(1, 1), 9);
    let mut chain = DecisionChain::new(vec![low]);
    chain.add_node(high);
    assert_eq!(chain.node_count(), 2);
    let removed = chain.remove_node("high").unwrap();
    assert_eq!(removed.priority, 9);
}

#[test]
fn law_chain_error_answer_is_counted() {
    let a = DecisionNode::new("a".to_string(), "A".to_string(), TokenBucketLimiter::new(10, 1), 10);
    let mut chain = DecisionChain::new(vec![a]);
    let r = chain.decide(vec![Err(LimiteronError::Other("x".to_string()))], 1);
    assert!(r.is_err());
    assert_eq!(chain.stats().error_count, 1);
}

#[test]
fn law_names_read_back() {
    for a in [Action::Reject, Action::Allow, Action::Degrade] {
        assert_eq!(Action::parse(a.as_str()), Some(a));
    }
    for s in [BanScope::Ip, BanScope::User, BanScope::Mac] {
        assert_eq!(BanScope::parse(s.as_str()), Some(s));
    }
    for s in [StorageType::Memory, StorageType::PostgreSQL, StorageType::Redis] {
        assert_eq!(StorageType::parse(s.as_str()), Some(s));
    }
    for t in [LimiterTypeName::TokenBucket, LimiterTypeName::Quota, LimiterTypeName::Custom] {
        assert_eq!(LimiterTypeName::parse(t.as_str()), Some(t));
    }
}

#[test]
fn law_escape_leaves_quote_free_text() {
    assert_eq!(escape_string("plain text"), "plain text");
    assert_eq!(escape_string("'"), "''");
}

#[test]
fn law_leaky_run_admits_at_most_the_room_when_nothing_leaks() {
    let mut l = LeakyBucketLimiter::new(5, 0);
    let mut admitted = 0u64;
    for (i, cost) in [2u64, 2, 2, 1, 3].iter().enumerate() {
        if l.allow_at(*cost, i as u64 * SEC) {
            admitted += cost;
        }
        assert!(l.current() <= 5);
    }
    assert_eq!(admitted, 5);
    assert_eq!(l.current(), 5);
}

#[test]
fn law_report_is_safe_until_a_warning() {
    let mut r = limiteron::config_security::ConfigSecurityReport::new();
    r.add_suggestion("use a cache".to_string());
    assert!(r.is_safe);
    assert!(!r.contains_sensitive_info());
    r.add_warning("empty id".to_string());
    r.add_suggestion("fill it".to_string());
    assert!(!r.is_safe);
    assert!(r.contains_sensitive_info());
}

#[test]
fn law_history_keeps_the_newest_in_order() {
    let rec = |v: &str| ConfigChangeRecord {
        timestamp_millis: 0,
        old_version: None,
        new_version: v.to_string(),
        old_hash: None,
        new_hash: String::new(),
        source: ChangeSource::Api,
        changes: vec![],
    };
    let mut h = ConfigHistory::new(3);
    for v in ["v1", "v2", "v3", "v4", "v5"] {
        h.add_record(rec(v));
        assert!(h.get_records().len() <= 3);
        assert_eq!(h.get_latest().unwrap().new_version, v);
    }
    let kept: Vec<&str> = h.get_records().iter().map(|r| r.new_version.as_str()).collect();
    assert_eq!(kept, vec!["v3", "v4", "v5"]);
}

#[test]
fn law_chain_counters_never_go_down() {
    let mut chain = DecisionChain::new(vec![
        DecisionNode::with_dependencies("a".to_string(), "a".to_string(), TokenBucketLimiter::new(2, 0), 10)
            .with_short_circuit(false),
        DecisionNode::with_dependencies("b".to_string(), "b".to_string(), TokenBucketLimiter::new(3, 0), 5),
    ]);
    let mut before = chain.stats();
    for _ in 0..5 {
        let _ = chain.check();
        let s = chain.stats();
        assert!(s.total_checks > before.total_checks);
        assert!(s.allowed_count >= before.allowed_count);
        assert!(s.rejected_count >= before.rejected_count);
        assert!(s.error_count >= before.error_count);
        assert_eq!(s.allowed_count + s.rejected_count + s.error_count, s.total_checks);
        before = s;
    }
}

#[test]
fn law_disabled_node_limiter_is_never_asked() {
    let mut chain = DecisionChain::new(vec![
        DecisionNode::with_dependencies("a".to_string(), "a".to_string(), TokenBucketLimiter::new(10, 0), 10),
        DecisionNode::with_dependencies("d".to_string(), "d".to_string(), TokenBucketLimiter::new(5, 0), 5)
            .with_enabled(false),
    ]);
    for _ in 0..3 {
        let _ = chain.check();
        let _ = chain.check_all();
    }
    let a = chain.remove_node("a").unwrap();
    let d = chain.remove_node("d").unwrap();
    assert_eq!(a.limiter.tokens(), 4);
    assert_eq!(d.limiter.tokens(), 5);
}
