use limiteron::config::global::{GlobalConfig, TrustedProxyConfig};
use limiteron::config::history::ChangeSource;
use limiteron::config::limiter::{parse_window_size, OverdraftConfig};
use limiteron::config::names::{
    Action, BanScope, CacheBackend, LimiterTypeName, MetricsBackend, QuotaType, StorageType,
};
use limiteron::time::Duration;

#[test]
fn config_test_global_config_default() {
    let global = GlobalConfig::default();
    assert_eq!(global.storage.as_str(), "memory");
    assert_eq!(global.cache.as_str(), "memory");
    assert_eq!(global.metrics.as_str(), "prometheus");
}

#[test]
fn test_global_config_validate_success() {
    let global = GlobalConfig {
        storage: StorageType::from("memory"),
        cache: CacheBackend::from("memory"),
        metrics: MetricsBackend::from("prometheus"),
        trusted_proxies: TrustedProxyConfig::default(),
    };
    assert!(global.validate().is_ok());
}

#[test]
fn test_parse_window_size_seconds() {
    let duration = parse_window_size("10s").unwrap();
    assert_eq!(duration, Duration::from_secs(10));
}

#[test]
fn test_parse_window_size_minutes() {
    let duration = parse_window_size("5m").unwrap();
    assert_eq!(duration, Duration::from_secs(300));
}

#[test]
fn test_parse_window_size_hours() {
    let duration = parse_window_size("2h").unwrap();
    assert_eq!(duration, Duration::from_secs(7200));
}

#[test]
fn test_parse_window_size_days() {
    let duration = parse_window_size("1d").unwrap();
    assert_eq!(duration, Duration::from_secs(86400));
}

#[test]
fn test_parse_window_size_milliseconds() {
    let duration = parse_window_size("500ms").unwrap();
    assert_eq!(duration, Duration::from_millis(500));
}

#[test]
fn test_overdraft_config_validate_disabled() {
    let config = OverdraftConfig {
        enabled: false,
        max_overdraft: 0,
    };
    assert!(config.validate().is_ok());
}

#[test]
fn test_change_source_variants() {
    let sources = vec![
        ChangeSource::Manual {
            operator: "admin".to_string(),
        },
        ChangeSource::Poll,
        ChangeSource::Watch,
        ChangeSource::Api,
        ChangeSource::Reload,
        ChangeSource::Rollback {
            target_version: "1.0".to_string(),
        },
    ];
    assert_eq!(sources.len(), 6);
}

#[test]
fn test_action_parse() {
    assert_eq!(Action::parse("reject"), Some(Action::Reject));
    assert_eq!(Action::parse("REJECT"), Some(Action::Reject));
    assert_eq!(Action::parse("allow"), Some(Action::Allow));
    assert_eq!(Action::parse("degrade"), Some(Action::Degrade));
    assert_eq!(Action::parse("invalid"), None);
    assert_eq!(Action::parse(""), None);
}

#[test]
fn test_action_as_str() {
    assert_eq!(Action::Reject.as_str(), "reject");
    assert_eq!(Action::Allow.as_str(), "allow");
    assert_eq!(Action::Degrade.as_str(), "degrade");
}

#[test]
fn test_action_display() {
    assert_eq!(Action::Reject.to_string(), "reject");
    assert_eq!(Action::Allow.to_string(), "allow");
    assert_eq!(Action::Degrade.to_string(), "degrade");
}

#[test]
fn test_action_from_str() {
    assert_eq!(Action::from("reject"), Action::Reject);
    assert_eq!(Action::from("invalid"), Action::Reject);
}

#[test]
fn test_action_default() {
    assert_eq!(Action::default(), Action::Reject);
}

#[test]
fn test_ban_scope_parse() {
    assert_eq!(BanScope::parse("ip"), Some(BanScope::Ip));
    assert_eq!(BanScope::parse("IP"), Some(BanScope::Ip));
    assert_eq!(BanScope::parse("user"), Some(BanScope::User));
    assert_eq!(BanScope::parse("mac"), Some(BanScope::Mac));
    assert_eq!(BanScope::parse("invalid"), None);
}

#[test]
fn test_ban_scope_as_str() {
    assert_eq!(BanScope::Ip.as_str(), "ip");
    assert_eq!(BanScope::User.as_str(), "user");
    assert_eq!(BanScope::Mac.as_str(), "mac");
}

#[test]
fn test_ban_scope_default() {
    assert_eq!(BanScope::default(), BanScope::Ip);
}

#[test]
fn test_cache_backend_parse() {
    assert_eq!(CacheBackend::parse("memory"), Some(CacheBackend::Memory));
    assert_eq!(CacheBackend::parse("redis"), Some(CacheBackend::Redis));
    assert_eq!(CacheBackend::parse("none"), Some(CacheBackend::Disabled));
    assert_eq!(CacheBackend::parse("invalid"), None);
}

#[test]
fn test_cache_backend_as_str() {
    assert_eq!(CacheBackend::Memory.as_str(), "memory");
    assert_eq!(CacheBackend::Redis.as_str(), "redis");
    assert_eq!(CacheBackend::Disabled.as_str(), "none");
}

#[test]
fn test_metrics_backend_parse() {
    assert_eq!(
        MetricsBackend::parse("prometheus"),
        Some(MetricsBackend::Prometheus)
    );
    assert_eq!(
        MetricsBackend::parse("statsd"),
        Some(MetricsBackend::Statsd)
    );
    assert_eq!(MetricsBackend::parse("none"), Some(MetricsBackend::Disabled));
    assert_eq!(MetricsBackend::parse("invalid"), None);
}

#[test]
fn test_metrics_backend_as_str() {
    assert_eq!(MetricsBackend::Prometheus.as_str(), "prometheus");
    assert_eq!(MetricsBackend::Statsd.as_str(), "statsd");
    assert_eq!(MetricsBackend::Disabled.as_str(), "none");
}

#[test]
fn test_ban_scope_from_str_and_display() {
    assert_eq!(BanScope::from("ip"), BanScope::Ip);
    assert_eq!(BanScope::from("user"), BanScope::User);
    assert_eq!(BanScope::from("mac"), BanScope::Mac);
    assert_eq!(BanScope::from("invalid"), BanScope::Ip);
    assert_eq!(BanScope::Ip.to_string(), "ip");
    assert_eq!(BanScope::User.to_string(), "user");
    assert_eq!(BanScope::Mac.to_string(), "mac");
}

#[test]
fn test_cache_backend_from_str_display_default() {
    assert_eq!(CacheBackend::from("memory"), CacheBackend::Memory);
    assert_eq!(CacheBackend::from("redis"), CacheBackend::Redis);
    assert_eq!(CacheBackend::from("none"), CacheBackend::Disabled);
    assert_eq!(CacheBackend::from("invalid"), CacheBackend::Memory);
    assert_eq!(CacheBackend::Memory.to_string(), "memory");
    assert_eq!(CacheBackend::Redis.to_string(), "redis");
    assert_eq!(CacheBackend::Disabled.to_string(), "none");
    assert_eq!(CacheBackend::default(), CacheBackend::Memory);
}

#[test]
fn test_metrics_backend_from_str_display_default() {
    assert_eq!(
        MetricsBackend::from("prometheus"),
        MetricsBackend::Prometheus
    );
    assert_eq!(MetricsBackend::from("statsd"), MetricsBackend::Statsd);
    assert_eq!(MetricsBackend::from("none"), MetricsBackend::Disabled);
    assert_eq!(MetricsBackend::from("invalid"), MetricsBackend::Prometheus);
    assert_eq!(MetricsBackend::Prometheus.to_string(), "prometheus");
    assert_eq!(MetricsBackend::Statsd.to_string(), "statsd");
    assert_eq!(MetricsBackend::Disabled.to_string(), "none");
    assert_eq!(MetricsBackend::default(), MetricsBackend::Prometheus);
}

#[test]
fn test_ban_scope_equality() {
    assert_eq!(BanScope::Ip, BanScope::Ip);
    assert_ne!(BanScope::Ip, BanScope::User);
    assert_ne!(BanScope::User, BanScope::Mac);
}

#[test]
fn test_action_equality() {
    assert_eq!(Action::Reject, Action::Reject);
    assert_ne!(Action::Reject, Action::Allow);
    assert_ne!(Action::Allow, Action::Degrade);
}

#[test]
fn test_storage_type_parse() {
    assert_eq!(StorageType::parse("memory"), Some(StorageType::Memory));
    assert_eq!(
        StorageType::parse("postgresql"),
        Some(StorageType::PostgreSQL)
    );
    assert_eq!(
        StorageType::parse("postgres"),
        Some(StorageType::PostgreSQL)
    );
    assert_eq!(StorageType::parse("redis"), Some(StorageType::Redis));
    assert_eq!(StorageType::parse("invalid"), None);
}

#[test]
fn test_storage_type_from_str() {
    assert_eq!(StorageType::from("memory"), StorageType::Memory);
    assert_eq!(StorageType::from("invalid"), StorageType::Memory);
}

#[test]
fn test_storage_type_display() {
    assert_eq!(StorageType::Memory.to_string(), "memory");
    assert_eq!(StorageType::PostgreSQL.to_string(), "postgresql");
    assert_eq!(StorageType::Redis.to_string(), "redis");
}

#[test]
fn test_storage_type_default() {
    assert_eq!(StorageType::default(), StorageType::Memory);
}

#[test]
fn test_trusted_proxy_config_default() {
    let config = TrustedProxyConfig::default();
    assert!(!config.enabled);
    assert!(config.proxies.is_empty());
    assert_eq!(config.max_hops, 10);
}

#[test]
fn test_trusted_proxy_config_validate_disabled() {
    let config = TrustedProxyConfig::default();
    assert!(config.validate().is_ok());
}

#[test]
fn test_trusted_proxy_config_validate_valid() {
    let config = TrustedProxyConfig {
        enabled: true,
        proxies: vec!["192.168.1.1".to_string(), "10.0.0.0/8".to_string()],
        max_hops: 10,
    };
    assert!(config.validate().is_ok());
}

#[test]
fn test_trusted_proxy_config_validate_invalid() {
    let config = TrustedProxyConfig {
        enabled: true,
        proxies: vec!["not-an-ip".to_string()],
        max_hops: 10,
    };
    assert!(config.validate().is_err());
}

#[test]
fn test_global_config_default() {
    let config = GlobalConfig::default();
    assert_eq!(config.storage, StorageType::Memory);
    assert_eq!(config.cache, CacheBackend::default());
    assert_eq!(config.metrics, MetricsBackend::default());
    assert!(!config.trusted_proxies.enabled);
}

#[test]
fn test_global_config_validate() {
    let config = GlobalConfig::default();
    assert!(config.validate().is_ok());
}

#[test]
fn test_change_source_manual() {
    let source = ChangeSource::Manual {
        operator: "admin".into(),
    };
    match source {
        ChangeSource::Manual { operator } => assert_eq!(operator, "admin"),
        _ => panic!("wrong variant"),
    }
}

#[test]
fn test_change_source_rollback() {
    let source = ChangeSource::Rollback {
        target_version: "v1".into(),
    };
    match source {
        ChangeSource::Rollback { target_version } => assert_eq!(target_version, "v1"),
        _ => panic!("wrong variant"),
    }
}

#[test]
fn test_parse_ms() {
    let d = parse_window_size("500ms").unwrap();
    assert_eq!(d, Duration::from_millis(500));
}

#[test]
fn test_parse_seconds() {
    let d = parse_window_size("30s").unwrap();
    assert_eq!(d, Duration::from_secs(30));
}

#[test]
fn test_parse_minutes() {
    let d = parse_window_size("5m").unwrap();
    assert_eq!(d, Duration::from_secs(300));
}

#[test]
fn test_parse_hours() {
    let d = parse_window_size("2h").unwrap();
    assert_eq!(d, Duration::from_secs(7200));
}

#[test]
fn test_parse_days() {
    let d = parse_window_size("1d").unwrap();
    assert_eq!(d, Duration::from_secs(86400));
}

#[test]
fn test_parse_full_unit_names() {
    assert_eq!(
        parse_window_size("10seconds").unwrap(),
        Duration::from_secs(10)
    );
    assert_eq!(
        parse_window_size("3minutes").unwrap(),
        Duration::from_secs(180)
    );
    assert!(parse_window_size("2hours").is_ok());
    assert!(parse_window_size("1days").is_ok());
}

#[test]
fn test_parse_empty() {
    assert!(parse_window_size("").is_err());
}

#[test]
fn test_parse_zero() {
    assert!(parse_window_size("0s").is_err());
}

#[test]
fn test_parse_unknown_unit() {
    assert!(parse_window_size("10weeks").is_err());
}

#[test]
fn test_parse_no_number() {
    assert!(parse_window_size("s").is_err());
}

#[test]
fn test_parse_no_unit() {
    assert!(parse_window_size("10").is_err());
}

#[test]
fn test_parse_invalid_number() {
    assert!(parse_window_size("abc").is_err());
}

#[test]
fn test_overdraft_enabled_valid() {
    let config = OverdraftConfig {
        enabled: true,
        max_overdraft: 100,
    };
    assert!(config.validate().is_ok());
}

#[test]
fn test_overdraft_enabled_zero() {
    let config = OverdraftConfig {
        enabled: true,
        max_overdraft: 0,
    };
    assert!(config.validate().is_err());
}

#[test]
fn test_overdraft_disabled() {
    let config = OverdraftConfig {
        enabled: false,
        max_overdraft: 0,
    };
    assert!(config.validate().is_ok());
}

#[test]
fn test_parse_token_bucket() {
    assert_eq!(
        LimiterTypeName::parse("TokenBucket"),
        Some(LimiterTypeName::TokenBucket)
    );
}

#[test]
fn test_parse_sliding_window() {
    assert_eq!(
        LimiterTypeName::parse("SlidingWindow"),
        Some(LimiterTypeName::SlidingWindow)
    );
}

#[test]
fn test_parse_fixed_window() {
    assert_eq!(
        LimiterTypeName::parse("FixedWindow"),
        Some(LimiterTypeName::FixedWindow)
    );
}

#[test]
fn test_parse_concurrency() {
    assert_eq!(
        LimiterTypeName::parse("Concurrency"),
        Some(LimiterTypeName::Concurrency)
    );
}

#[test]
fn test_parse_invalid() {
    assert_eq!(LimiterTypeName::parse("Invalid"), None);
    assert_eq!(LimiterTypeName::parse(""), None);
}

#[test]
fn test_as_str() {
    assert_eq!(LimiterTypeName::TokenBucket.as_str(), "TokenBucket");
    assert_eq!(LimiterTypeName::SlidingWindow.as_str(), "SlidingWindow");
    assert_eq!(LimiterTypeName::FixedWindow.as_str(), "FixedWindow");
    assert_eq!(LimiterTypeName::Concurrency.as_str(), "Concurrency");
}

#[test]
fn test_display() {
    assert_eq!(LimiterTypeName::TokenBucket.to_string(), "TokenBucket");
    assert_eq!(LimiterTypeName::Custom.to_string(), "Custom");
}

#[test]
fn test_eq() {
    assert_eq!(LimiterTypeName::TokenBucket, LimiterTypeName::TokenBucket);
    assert_ne!(LimiterTypeName::TokenBucket, LimiterTypeName::SlidingWindow);
}

#[test]
fn test_quota_type_parse() {
    assert_eq!(QuotaType::parse("token"), Some(QuotaType::Token));
    assert_eq!(QuotaType::parse("TOKEN"), Some(QuotaType::Token));
    assert_eq!(QuotaType::parse("money"), Some(QuotaType::Money));
    assert_eq!(QuotaType::parse("count"), Some(QuotaType::Count));
    assert_eq!(QuotaType::parse("invalid"), None);
    assert_eq!(QuotaType::parse(""), None);
}

#[test]
fn test_quota_type_as_str() {
    assert_eq!(QuotaType::Token.as_str(), "token");
    assert_eq!(QuotaType::Money.as_str(), "money");
    assert_eq!(QuotaType::Count.as_str(), "count");
}

#[test]
fn test_quota_type_display() {
    assert_eq!(QuotaType::Token.to_string(), "token");
    assert_eq!(QuotaType::Money.to_string(), "money");
    assert_eq!(QuotaType::Count.to_string(), "count");
}

#[test]
fn test_quota_type_default() {
    assert_eq!(QuotaType::default(), QuotaType::Count);
}
