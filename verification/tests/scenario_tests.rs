use limiteron::circuit_breaker::{CircuitBreaker, CircuitBreakerConfig};
use limiteron::code_review::{aggregate_results, format_report_as_markdown, CodeReviewConfig};
use limiteron::config::flow::FlowControlConfig;
use limiteron::config::global::{GlobalConfig, TrustedProxyConfig};
use limiteron::device_matcher::DeviceMatcher;
use std::cmp::Ordering;
use limiteron::custom_limiter::{CustomLimiter, CustomLimiterRegistry, LeakyBucketLimiter};
use limiteron::custom_matcher::{
    utc_hour_at, CustomMatcher, CustomMatcherRegistry, HeaderMatcher, RequestContext, TimeWindowMatcher,
};
use limiteron::decision_chain::{DecisionChain, DecisionNode, Limiter};
use limiteron::custom_limiter::TokenBucketLimiter;
use limiteron::error::{CircuitState, Decision, LimiteronError};
use limiteron::json::{JsonNumber, JsonValue};
use limiteron::time::Duration;

const SEC: u64 = 1_000_000_000;

#[test]
fn half_open_failure_waits_a_full_timeout_again() {
    let cfg = CircuitBreakerConfig::new(2, 3, Duration::from_secs(30));
    let mut b = CircuitBreaker::with_dependencies_at(cfg, 0);
    assert!(b.try_acquire_at(0).is_ok());
    b.on_failure_at(0);
    assert!(b.try_acquire_at(SEC).is_ok());
    b.on_failure_at(SEC);
    assert_eq!(b.get_state(), CircuitState::Open);

    // After the timeout one probe succeeds: half-open.
    let r: Result<u32, LimiteronError> = b.execute_at(32 * SEC, || Ok(1));
    assert_eq!(r.ok(), Some(1));
    assert_eq!(b.get_state(), CircuitState::HalfOpen);

    // A failing probe opens the breaker again.
    let r: Result<u32, LimiteronError> =
        b.execute_at(33 * SEC, || Err(LimiteronError::LimitError("down".to_string())));
    assert!(r.is_err());
    assert_eq!(b.get_state(), CircuitState::Open);

    // Right after, the operation is not run and the breaker stays open.
    let mut ran = false;
    let r: Result<u32, LimiteronError> = b.execute_at(34 * SEC, || {
        ran = true;
        Ok(2)
    });
    assert!(!ran);
    match r {
        Err(e) => assert!(e.to_string().contains("熔断器打开")),
        Ok(_) => panic!("the open breaker let a call through"),
    }
    assert_eq!(b.get_state(), CircuitState::Open);

    // Still open just before a full timeout since it opened again.
    assert!(b.try_acquire_at(62 * SEC).is_err());
    assert_eq!(b.get_state(), CircuitState::Open);
    // Half-open once the timeout has passed.
    assert!(b.try_acquire_at(64 * SEC).is_ok());
    assert_eq!(b.get_state(), CircuitState::HalfOpen);
}

#[test]
fn limiter_registry_hands_out_the_registered_limiter() {
    let mut r: CustomLimiterRegistry<Box<dyn CustomLimiter>> = CustomLimiterRegistry::new();
    assert!(r.register("leaky_bucket".to_string(), Box::new(LeakyBucketLimiter::new(100, 10))).is_ok());
    match r.get("leaky_bucket") {
        Some(l) => assert_eq!(l.name(), "leaky_bucket"),
        None => panic!("a registered limiter was not found"),
    }
    assert!(r.get("missing").is_none());
}

#[test]
fn limiter_registry_allow_and_stats_come_from_the_named_limiter() {
    let mut r: CustomLimiterRegistry<Box<dyn CustomLimiter>> = CustomLimiterRegistry::new();
    assert!(r.register("lb".to_string(), Box::new(LeakyBucketLimiter::new(3, 1))).is_ok());
    assert_eq!(r.allow("lb", 2).ok(), Some(true));
    assert_eq!(r.allow("lb", 2).ok(), Some(false));
    let st = r.get_stats("lb").ok().unwrap();
    assert_eq!(st.total_requests, 2);
    assert_eq!(st.allowed_requests, 1);
    assert_eq!(st.rejected_requests, 1);
    assert!(matches!(r.allow("missing", 1), Err(LimiteronError::ConfigError(_))));
    assert!(r.get_stats("missing").is_err());
}

#[test]
fn matcher_registry_answers_with_the_named_matcher() {
    let mut r: CustomMatcherRegistry<Box<dyn CustomMatcher>> = CustomMatcherRegistry::new();
    let m = HeaderMatcher::new("X-Api-Version", vec!["v1".to_string()]).ok().unwrap();
    assert!(r.register("api".to_string(), Box::new(m)).is_ok());
    let hit = RequestContext::new().with_header("x-api-version".to_string(), "V1".to_string());
    let miss = RequestContext::new().with_header("x-api-version".to_string(), "v2".to_string());
    assert_eq!(r.match_with("api", &hit).ok(), Some(true));
    assert_eq!(r.match_with("api", &miss).ok(), Some(false));
    assert!(r.match_with("missing", &hit).is_err());
    match r.get("api") {
        Some(m) => assert_eq!(m.name(), "header"),
        None => panic!("a registered matcher was not found"),
    }
    assert!(r.get("missing").is_none());
}

#[test]
fn time_window_refuses_hours_past_23_and_keeps_its_window() {
    let mut m = TimeWindowMatcher::new(9, 18);
    let config = JsonValue::Object(vec![
        ("start_hour".to_string(), JsonValue::Number(JsonNumber::PosInt(256))),
        ("end_hour".to_string(), JsonValue::Number(JsonNumber::PosInt(10))),
    ]);
    assert!(matches!(m.load_config(&config), Err(LimiteronError::ConfigError(_))));
    assert_eq!(m.start_hour(), 9);
    assert_eq!(m.end_hour(), 18);
}

#[test]
fn utc_hour_of_a_time() {
    assert_eq!(utc_hour_at(0), 0);
    assert_eq!(utc_hour_at(3600 * 25), 1);
    assert_eq!(utc_hour_at(3600 * 24 - 1), 23);
}

fn node(id: &str, priority: u16, capacity: u64, short_circuit: bool) -> DecisionNode<TokenBucketLimiter> {
    DecisionNode::with_dependencies(
        id.to_string(),
        id.to_string(),
        TokenBucketLimiter::new(capacity, 0),
        priority,
    )
    .with_short_circuit(short_circuit)
}

#[test]
fn chain_rejection_without_short_circuit_still_rejects() {
    let mut chain = DecisionChain::new(vec![node("n1", 100, 0, false), node("n2", 50, 10, true)]);
    match chain.check() {
        Ok(Decision::Rejected(m)) => assert_eq!(m.reason, "Rejected by n1: rate limit exceeded"),
        _ => panic!("the chain let the request pass"),
    }
    // The rejection and the end of the check are each counted as a check;
    // the end of the check also counts as an allowed one.
    let s = chain.stats();
    assert_eq!(s.total_checks, 2);
    assert_eq!(s.allowed_count, 1);
    assert_eq!(s.rejected_count, 1);
    assert_eq!(s.node_rejections, vec![("n1".to_string(), 1)]);
}

#[test]
fn full_check_consults_every_enabled_node_in_order() {
    let mut chain = DecisionChain::new(vec![
        node("a", 30, 0, true),
        node("b", 20, 5, true),
        node("c", 10, 0, true),
        node("d", 5, 0, true).with_enabled(false),
    ]);
    match chain.check_all() {
        Ok(Decision::Rejected(m)) => {
            assert_eq!(m.reason, "a: rate limit exceeded; c: rate limit exceeded")
        },
        _ => panic!("the full check let the request pass"),
    }
    let s = chain.stats();
    assert_eq!(s.total_checks, 1);
    assert_eq!(s.rejected_count, 2);
    assert_eq!(s.node_rejections.len(), 2);
}

#[test]
fn node_setters_keep_the_limiter() {
    let mut n = node("x", 1, 2, true).with_enabled(true).with_short_circuit(false).with_cost(1);
    assert_eq!(n.limiter.tokens(), 2);
    assert_eq!(Limiter::allow(&mut n.limiter, 2).ok(), Some(true));
}

fn versioned(v: &str) -> FlowControlConfig {
    FlowControlConfig { version: v.to_string(), global: GlobalConfig::default(), rules: vec![] }
}

#[test]
fn versions_compare_as_numbers() {
    assert_eq!(versioned("9.0").compare_version(&versioned("10.0")), Ordering::Less);
    assert_eq!(versioned("10.0").compare_version(&versioned("9.0")), Ordering::Greater);
    assert_eq!(versioned("1.0").compare_version(&versioned("2.0")), Ordering::Less);
    assert_eq!(versioned("2.0").compare_version(&versioned("1.0")), Ordering::Greater);
    assert_eq!(versioned("1.0").compare_version(&versioned("1.0")), Ordering::Equal);
    assert_eq!(versioned("1.10").compare_version(&versioned("1.9")), Ordering::Greater);
    assert_eq!(versioned("1.0").compare_version(&versioned("1.0.0")), Ordering::Equal);
    assert_eq!(versioned("01.2").compare_version(&versioned("1.2")), Ordering::Equal);
    assert_eq!(versioned("1.2").compare_version(&versioned("1.2.1")), Ordering::Less);
    assert_eq!(versioned("1.0-alpha").compare_version(&versioned("1.0-beta")), Ordering::Less);
    assert_eq!(
        versioned("123456789012345678901234567890.1").compare_version(&versioned("99999999999999999999999999999.1")),
        Ordering::Greater
    );
}

#[test]
fn trusted_proxy_compares_addresses_not_text() {
    let c = TrustedProxyConfig {
        enabled: true,
        proxies: vec!["::1".to_string(), "192.168.1.1".to_string(), "10.0.0.0/8".to_string()],
        max_hops: 10,
    };
    assert!(c.is_trusted("0:0:0:0:0:0:0:1"));
    assert!(c.is_trusted("::1"));
    assert!(c.is_trusted("192.168.1.1"));
    assert!(c.is_trusted("10.0.0.1"));
    assert!(!c.is_trusted("1.2.3.4"));
    assert!(!c.is_trusted("::2"));
    assert!(!c.is_trusted("not-an-ip"));
    let off = TrustedProxyConfig { enabled: false, ..c };
    assert!(!off.is_trusted("192.168.1.1"));
}

#[test]
fn registry_lookups_after_register_and_unregister() {
    let mut r: CustomLimiterRegistry<Box<dyn CustomLimiter>> = CustomLimiterRegistry::new();
    assert!(r.register("a".to_string(), Box::new(LeakyBucketLimiter::new(1, 1))).is_ok());
    assert!(r.register("b".to_string(), Box::new(TokenBucketLimiter::new(1, 1))).is_ok());
    assert!(r.register("a".to_string(), Box::new(TokenBucketLimiter::new(1, 1))).is_err());
    assert_eq!(r.get("a").map(|l| l.name().to_string()), Some("leaky_bucket".to_string()));
    assert_eq!(r.get("b").map(|l| l.name().to_string()), Some("token_bucket".to_string()));
    assert!(r.unregister("a").is_ok());
    assert!(r.get("a").is_none());
    assert_eq!(r.get("b").map(|l| l.name().to_string()), Some("token_bucket".to_string()));

    let mut m: CustomMatcherRegistry<Box<dyn CustomMatcher>> = CustomMatcherRegistry::new();
    let h = HeaderMatcher::new("X-Api", vec!["v1".to_string()]).ok().unwrap();
    assert!(m.register("w".to_string(), Box::new(TimeWindowMatcher::new(0, 23))).is_ok());
    assert!(m.register("h".to_string(), Box::new(h)).is_ok());
    assert_eq!(m.get("w").map(|x| x.name().to_string()), Some("time_window".to_string()));
    assert_eq!(m.get("h").map(|x| x.name().to_string()), Some("header".to_string()));
    assert!(m.unregister("w").is_ok());
    assert!(m.get("w").is_none());
    assert_eq!(m.get("h").map(|x| x.name().to_string()), Some("header".to_string()));
}

#[test]
fn device_cache_stays_within_its_limit() {
    let mut m = DeviceMatcher::with_cache_limit(10).unwrap();
    for i in 0..35 {
        let ua = format!("TestAgent/{}.0", i);
        assert!(m.parse(&ua).is_ok());
        let st = m.cache_stats();
        assert!(st.size <= 10);
        assert_eq!(st.limit, 10);
    }
}

#[test]
fn report_time_is_shown_to_the_nanosecond() {
    let report = aggregate_results(&CodeReviewConfig::default(), vec![], 1_000_000_001);
    let text = format_report_as_markdown(&report);
    assert!(text.contains("1970-01-01 00:00:01.000000001 UTC"));
}
