use limiteron::clock::{Clock, MockClock};
use limiteron::config::builder::{ConfigBuilder, RuleBuilder};
use limiteron::config::flow::FlowControlConfig;
use limiteron::config::global::{GlobalConfig, TrustedProxyConfig};
use limiteron::config::history::{ChangeSource, ConfigChangeRecord, ConfigHistory};
use limiteron::config::limiter::{parse_window_size, LimiterConfig, OverdraftConfig};
use limiteron::config::names::{Action, BanScope, QuotaType};
use limiteron::config::rule::{ActionConfig, BanConfig, Matcher, Rule};
use limiteron::config_security::ConfigSecurityValidator;
use limiteron::custom_limiter::TokenBucketLimiter;
use limiteron::dbnexus_entities::{create_all_tables_ddl, event_outbox, rate_limit};
use limiteron::decision_chain::{AtomicChainStats, DecisionChain, DecisionChainBuilder, DecisionNode};
use limiteron::device_matcher::{DeviceInfo, DeviceType};
use limiteron::error::abstraction::{
    BanSafeError, ConfigSafeError, GeneralSafeError, LimitSafeError, StorageSafeError,
    ValidationSafeError,
};
use limiteron::error::{Decision, LimiteronError, RateLimitMetadata, RejectionMetadata, StorageError};
use limiteron::json::JsonValue;
use limiteron::time::Duration;
use std::cmp::Ordering;
use std::time::Instant;

fn key_value_config() -> JsonValue {
    JsonValue::Object(vec![("key".to_string(), JsonValue::String("value".to_string()))])
}

fn sample_rule(id: &str) -> Rule {
    Rule {
        id: id.to_string(),
        name: "Test Rule".to_string(),
        priority: 100,
        matchers: vec![Matcher::User {
            user_ids: vec!["*".to_string()],
        }],
        limiters: vec![LimiterConfig::TokenBucket {
            capacity: 1000,
            refill_rate: 100,
        }],
        action: ActionConfig {
            on_exceed: Action::Reject,
            ban: None,
        },
    }
}

fn config_with(version: &str, rules: Vec<Rule>) -> FlowControlConfig {
    FlowControlConfig {
        version: version.to_string(),
        global: GlobalConfig::default(),
        rules,
    }
}

fn sample_record(new_version: &str) -> ConfigChangeRecord {
    ConfigChangeRecord {
        timestamp_millis: 0,
        old_version: Some("v1".to_string()),
        new_version: new_version.to_string(),
        old_hash: None,
        new_hash: "hash".to_string(),
        source: ChangeSource::Poll,
        changes: vec![],
    }
}

fn ban(threshold: u32, backoff: f64) -> BanConfig {
    BanConfig {
        threshold,
        initial_duration: "1h".to_string(),
        backoff_multiplier_bits: backoff.to_bits(),
        max_duration: "24h".to_string(),
        scope: BanScope::Ip,
    }
}

// ---------------------------------------------------------------- clock

#[test]
fn test_mock_clock_advance() {
    let mut clock = MockClock::new();
    let start = clock.now();

    clock.advance(Duration::from_secs(10));
    let elapsed = clock.now().duration_since(start);

    assert_eq!(elapsed, std::time::Duration::from_secs(10));
}

#[test]
fn test_mock_clock_set_time() {
    let mut clock = MockClock::new();
    let custom_instant = Instant::now() + std::time::Duration::from_secs(100);
    let custom_unix_ts = 1_700_000_000;

    clock.set_time(custom_instant, custom_unix_ts);

    assert_eq!(clock.now(), custom_instant);
    assert_eq!(clock.unix_timestamp(), custom_unix_ts);
}

#[test]
fn test_mock_clock_unix_timestamp_nanos() {
    let mut clock = MockClock::new();
    clock.advance(Duration::from_secs(5));

    let ts_secs = clock.unix_timestamp();
    let ts_nanos = clock.unix_timestamp_nanos();

    assert_eq!(ts_nanos, ts_secs * 1_000_000_000);
}

#[test]
fn test_mock_clock_with_instant() {
    let instant = Instant::now();
    let unix_ts = 1_700_000_000;
    let clock = MockClock::with_instant(instant, unix_ts);

    assert_eq!(clock.now(), instant);
    assert_eq!(clock.unix_timestamp(), unix_ts);
}

// ---------------------------------------------------------------- configuration

#[test]
fn test_valid_config() {
    let config = config_with("1.0", vec![]);
    assert!(config.validate().is_err());
}

#[test]
fn test_config_with_rule() {
    let config = config_with("1.0", vec![sample_rule("test_rule")]);
    assert!(config.validate().is_ok());
}

#[test]
fn test_duplicate_rule_ids() {
    let config = config_with("1.0", vec![sample_rule("duplicate"), sample_rule("duplicate")]);
    assert!(config.validate().is_err());
}

#[test]
fn test_flow_control_config_default() {
    let config = FlowControlConfig::default();
    assert_eq!(config.version, "0.1.0");
    assert_eq!(config.global.storage.as_str(), "memory");
    assert_eq!(config.global.cache.as_str(), "memory");
    assert_eq!(config.global.metrics.as_str(), "prometheus");
    assert!(config.rules.is_empty());
}

#[test]
fn test_config_validate_empty_version() {
    let config = config_with("", vec![sample_rule("test")]);
    let result = config.validate();
    assert!(result.is_err());
    assert!(result.unwrap_err().contains("版本号不能为空"));
}

#[test]
fn test_config_compare_version() {
    let config1 = config_with("1.0", vec![]);
    let config2 = config_with("2.0", vec![]);
    assert_eq!(config1.compare_version(&config2), Ordering::Less);
    assert_eq!(config2.compare_version(&config1), Ordering::Greater);
    assert_eq!(config1.compare_version(&config1), Ordering::Equal);
}

#[test]
fn test_config_create_change_record() {
    let old_config = config_with("1.0", vec![]);
    let new_config = config_with("2.0", vec![]);

    let record = new_config.create_change_record(
        Some(&old_config),
        ChangeSource::Manual {
            operator: "test".to_string(),
        },
        0,
        "new".to_string(),
        Some("old".to_string()),
    );

    assert_eq!(record.old_version, Some("1.0".to_string()));
    assert_eq!(record.new_version, "2.0");
    assert!(!record.changes.is_empty());
}

#[test]
fn test_config_create_change_record_no_old() {
    let config = FlowControlConfig::default();
    let record = config.create_change_record(None, ChangeSource::Poll, 0, "h".to_string(), None);
    assert!(record.old_version.is_none());
    assert_eq!(record.changes, vec!["初始配置"]);
}

#[test]
fn test_rule_validate_empty_id() {
    let mut rule = sample_rule("");
    rule.name = "Test".to_string();
    let result = rule.validate();
    assert!(result.is_err());
    assert!(result.unwrap_err().contains("规则ID不能为空"));
}

#[test]
fn test_rule_validate_empty_name() {
    let mut rule = sample_rule("test");
    rule.name = "".to_string();
    let result = rule.validate();
    assert!(result.is_err());
    assert!(result.unwrap_err().contains("规则名称不能为空"));
}

#[test]
fn test_rule_validate_empty_matchers() {
    let mut rule = sample_rule("test");
    rule.matchers = vec![];
    let result = rule.validate();
    assert!(result.is_err());
    assert!(result.unwrap_err().contains("规则至少需要一个匹配器"));
}

#[test]
fn test_rule_validate_empty_limiters() {
    let mut rule = sample_rule("test");
    rule.limiters = vec![];
    let result = rule.validate();
    assert!(result.is_err());
    assert!(result.unwrap_err().contains("规则至少需要一个限流器"));
}

#[test]
fn test_matcher_validate_user_empty() {
    let matcher = Matcher::User { user_ids: vec![] };
    let result = matcher.validate();
    assert!(result.is_err());
    assert!(result.unwrap_err().contains("用户ID列表不能为空"));
}

#[test]
fn test_matcher_validate_ip_empty() {
    let matcher = Matcher::Ip { ip_ranges: vec![] };
    let result = matcher.validate();
    assert!(result.is_err());
    assert!(result.unwrap_err().contains("IP范围列表不能为空"));
}

#[test]
fn test_matcher_validate_geo_empty() {
    let matcher = Matcher::Geo { countries: vec![] };
    let result = matcher.validate();
    assert!(result.is_err());
    assert!(result.unwrap_err().contains("国家列表不能为空"));
}

#[test]
fn test_matcher_validate_api_version_empty() {
    let matcher = Matcher::ApiVersion { versions: vec![] };
    let result = matcher.validate();
    assert!(result.is_err());
    assert!(result.unwrap_err().contains("API版本列表不能为空"));
}

#[test]
fn test_matcher_validate_device_empty() {
    let matcher = Matcher::Device {
        device_types: vec![],
    };
    let result = matcher.validate();
    assert!(result.is_err());
    assert!(result.unwrap_err().contains("设备类型列表不能为空"));
}

#[test]
fn test_matcher_validate_custom_empty_name() {
    let matcher = Matcher::Custom {
        name: "".to_string(),
        config: key_value_config(),
    };
    let result = matcher.validate();
    assert!(result.is_err());
    assert!(result.unwrap_err().contains("自定义匹配器名称不能为空"));
}

#[test]
fn test_matcher_validate_custom_null_config() {
    let matcher = Matcher::Custom {
        name: "test".to_string(),
        config: JsonValue::Null,
    };
    let result = matcher.validate();
    assert!(result.is_err());
    assert!(result.unwrap_err().contains("自定义匹配器配置不能为空"));
}

#[test]
fn test_parse_window_size_empty() {
    let result = parse_window_size("");
    assert!(result.is_err());
    assert!(result.unwrap_err().contains("窗口大小不能为空"));
}

#[test]
fn test_parse_window_size_no_unit() {
    let result = parse_window_size("10");
    assert!(result.is_err());
    assert!(result.unwrap_err().contains("缺少单位"));
}

#[test]
fn test_parse_window_size_invalid_unit() {
    let result = parse_window_size("10x");
    assert!(result.is_err());
    assert!(result.unwrap_err().contains("不支持的单位"));
}

#[test]
fn test_parse_window_size_zero() {
    let result = parse_window_size("0s");
    assert!(result.is_err());
    assert!(result.unwrap_err().contains("窗口大小必须大于0"));
}

#[test]
fn config_test_action_config_default() {
    let action = ActionConfig::default();
    assert_eq!(action.on_exceed, Action::Reject);
    assert!(action.ban.is_none());
}

#[test]
fn test_action_config_validate_success() {
    let action = ActionConfig {
        on_exceed: Action::Reject,
        ban: None,
    };
    assert!(action.validate().is_ok());
}

#[test]
fn test_ban_config_validate_threshold_zero() {
    let config = BanConfig {
        threshold: 0,
        initial_duration: "1m".to_string(),
        backoff_multiplier_bits: 2.0f64.to_bits(),
        max_duration: "1h".to_string(),
        scope: BanScope::Ip,
    };
    let result = config.validate();
    assert!(result.is_err());
    assert!(result.unwrap_err().contains("封禁阈值不能为0"));
}

#[test]
fn test_ban_config_validate_backoff_zero() {
    let config = BanConfig {
        threshold: 10,
        initial_duration: "1m".to_string(),
        backoff_multiplier_bits: 0.0f64.to_bits(),
        max_duration: "1h".to_string(),
        scope: BanScope::Ip,
    };
    let result = config.validate();
    assert!(result.is_err());
    assert!(result.unwrap_err().contains("退避倍数必须大于0"));
}

#[test]
fn test_config_builder_build_success() {
    let config = ConfigBuilder::new()
        .with_rule(|rule| {
            rule.id("test".to_string())
                .name("Test Rule".to_string())
                .user_matcher(vec!["*".to_string()])
                .token_bucket(1000, 100)
        })
        .build();

    assert!(config.is_ok());
    let config = config.unwrap();
    assert_eq!(config.rules.len(), 1);
    assert_eq!(config.rules[0].id, "test");
}

#[test]
fn test_config_builder_build_empty_rules() {
    let result = ConfigBuilder::new().build();
    assert!(result.is_err());
    assert!(result.unwrap_err().to_string().contains("至少需要一个规则"));
}

#[test]
fn test_rule_builder_build_success() {
    let rule = RuleBuilder::new()
        .id("test".to_string())
        .name("Test".to_string())
        .user_matcher(vec!["*".to_string()])
        .token_bucket(1000, 100)
        .build();

    assert!(rule.is_ok());
    let rule = rule.unwrap();
    assert_eq!(rule.id, "test");
}

#[test]
fn test_rule_builder_build_empty_id() {
    let result = RuleBuilder::new()
        .name("Test".to_string())
        .user_matcher(vec!["*".to_string()])
        .token_bucket(1000, 100)
        .build();
    assert!(result.is_err());
    assert!(result.unwrap_err().contains("规则ID不能为空"));
}

#[test]
fn test_rule_builder_build_empty_name() {
    let result = RuleBuilder::new()
        .id("test".to_string())
        .user_matcher(vec!["*".to_string()])
        .token_bucket(1000, 100)
        .build();
    assert!(result.is_err());
    assert!(result.unwrap_err().contains("规则名称不能为空"));
}

#[test]
fn test_rule_builder_build_empty_matchers() {
    let result = RuleBuilder::new()
        .id("test".to_string())
        .name("Test".to_string())
        .token_bucket(1000, 100)
        .build();
    assert!(result.is_err());
    assert!(result.unwrap_err().contains("规则至少需要一个匹配器"));
}

#[test]
fn test_rule_builder_build_empty_limiters() {
    let result = RuleBuilder::new()
        .id("test".to_string())
        .name("Test".to_string())
        .user_matcher(vec!["*".to_string()])
        .build();
    assert!(result.is_err());
    assert!(result.unwrap_err().contains("规则至少需要一个限流器"));
}

#[test]
fn test_config_history_new() {
    let history = ConfigHistory::new(50);
    assert_eq!(history.max_records(), 50);
    assert!(history.get_records().is_empty());
}

#[test]
fn test_config_history_default() {
    let history = ConfigHistory::default();
    assert_eq!(history.max_records(), 100);
}

#[test]
fn test_config_history_add_record() {
    let mut history = ConfigHistory::new(10);
    let record = ConfigChangeRecord {
        timestamp_millis: 0,
        old_version: None,
        new_version: "1.0".to_string(),
        old_hash: None,
        new_hash: "abc".to_string(),
        source: ChangeSource::Poll,
        changes: vec!["初始配置".to_string()],
    };
    history.add_record(record);
    assert_eq!(history.get_records().len(), 1);
}

#[test]
fn test_config_history_max_records() {
    let mut history = ConfigHistory::new(3);
    for i in 0..5 {
        let record = ConfigChangeRecord {
            timestamp_millis: 0,
            old_version: None,
            new_version: format!("{}", i),
            old_hash: None,
            new_hash: format!("hash{}", i),
            source: ChangeSource::Poll,
            changes: vec![],
        };
        history.add_record(record);
    }
    assert_eq!(history.get_records().len(), 3);
    assert_eq!(history.get_latest().unwrap().new_version, "4");
}

#[test]
fn test_config_history_clear() {
    let mut history = ConfigHistory::new(10);
    let record = ConfigChangeRecord {
        timestamp_millis: 0,
        old_version: None,
        new_version: "1.0".to_string(),
        old_hash: None,
        new_hash: "abc".to_string(),
        source: ChangeSource::Poll,
        changes: vec![],
    };
    history.add_record(record);
    history.clear();
    assert!(history.get_records().is_empty());
}

#[test]
fn actions_test_action_config_default() {
    let config = ActionConfig::default();
    assert_eq!(config.on_exceed, Action::Reject);
    assert!(config.ban.is_none());
}

#[test]
fn test_action_config_validate_no_ban() {
    let config = ActionConfig {
        on_exceed: Action::Reject,
        ban: None,
    };
    assert!(config.validate().is_ok());
}

#[test]
fn test_action_config_validate_with_valid_ban() {
    let config = ActionConfig {
        on_exceed: Action::Reject,
        ban: Some(ban(5, 2.0)),
    };
    assert!(config.validate().is_ok());
}

#[test]
fn test_action_config_validate_with_invalid_ban() {
    let config = ActionConfig {
        on_exceed: Action::Reject,
        ban: Some(ban(0, 2.0)),
    };
    assert!(config.validate().is_err());
}

#[test]
fn test_ban_config_validate() {
    assert!(ban(5, 2.0).validate().is_ok());
    assert!(ban(0, 2.0).validate().is_err());
    assert!(ban(5, 0.0).validate().is_err());
}

#[test]
fn test_action_config_validate_with_invalid_backoff() {
    let config = ActionConfig {
        on_exceed: Action::Reject,
        ban: Some(ban(5, -1.0)),
    };
    assert!(config.validate().is_err());
}

#[test]
fn test_trusted_proxy_is_trusted() {
    let config = TrustedProxyConfig {
        enabled: true,
        proxies: vec!["192.168.1.1".to_string(), "10.0.0.0/8".to_string()],
        max_hops: 10,
    };
    assert!(config.is_trusted("192.168.1.1"));
    assert!(config.is_trusted("10.0.0.1"));
    assert!(!config.is_trusted("1.2.3.4"));
    assert!(!config.is_trusted("not-an-ip"));
}

#[test]
fn test_trusted_proxy_is_trusted_disabled() {
    let config = TrustedProxyConfig::default();
    assert!(!config.is_trusted("192.168.1.1"));
}

#[test]
fn test_history_new() {
    let history = ConfigHistory::new(10);
    assert_eq!(history.max_records(), 10);
    assert!(history.get_records().is_empty());
}

#[test]
fn test_history_default() {
    let history = ConfigHistory::default();
    assert_eq!(history.max_records(), 100);
}

#[test]
fn test_history_add_record() {
    let mut history = ConfigHistory::new(10);
    history.add_record(sample_record("v2"));
    assert_eq!(history.get_records().len(), 1);
}

#[test]
fn test_history_max_records_trim() {
    let mut history = ConfigHistory::new(2);
    history.add_record(sample_record("v2"));
    history.add_record(sample_record("v3"));
    history.add_record(sample_record("v4"));
    assert_eq!(history.get_records().len(), 2);
    assert_eq!(history.get_records()[0].new_version, "v3");
}

#[test]
fn test_history_get_latest() {
    let mut history = ConfigHistory::new(10);
    assert!(history.get_latest().is_none());
    history.add_record(sample_record("v2"));
    assert!(history.get_latest().is_some());
    assert_eq!(history.get_latest().unwrap().new_version, "v2");
}

#[test]
fn test_history_clear() {
    let mut history = ConfigHistory::new(10);
    history.add_record(sample_record("v2"));
    history.clear();
    assert!(history.get_records().is_empty());
}

#[test]
fn test_token_bucket_valid() {
    let config = LimiterConfig::TokenBucket {
        capacity: 100,
        refill_rate: 10,
    };
    assert!(config.validate().is_ok());
}

#[test]
fn test_token_bucket_zero_capacity() {
    let config = LimiterConfig::TokenBucket {
        capacity: 0,
        refill_rate: 10,
    };
    assert!(config.validate().is_err());
}

#[test]
fn test_token_bucket_zero_refill() {
    let config = LimiterConfig::TokenBucket {
        capacity: 100,
        refill_rate: 0,
    };
    assert!(config.validate().is_err());
}

#[test]
fn test_sliding_window_valid() {
    let config = LimiterConfig::SlidingWindow {
        window_size: "60s".into(),
        max_requests: 100,
    };
    assert!(config.validate().is_ok());
}

#[test]
fn test_sliding_window_zero_requests() {
    let config = LimiterConfig::SlidingWindow {
        window_size: "60s".into(),
        max_requests: 0,
    };
    assert!(config.validate().is_err());
}

#[test]
fn test_sliding_window_invalid_window() {
    let config = LimiterConfig::SlidingWindow {
        window_size: "".into(),
        max_requests: 100,
    };
    assert!(config.validate().is_err());
}

#[test]
fn test_fixed_window_valid() {
    let config = LimiterConfig::FixedWindow {
        window_size: "60s".into(),
        max_requests: 100,
    };
    assert!(config.validate().is_ok());
}

#[test]
fn test_concurrency_valid() {
    let config = LimiterConfig::Concurrency { max_concurrent: 10 };
    assert!(config.validate().is_ok());
}

#[test]
fn test_concurrency_zero() {
    let config = LimiterConfig::Concurrency { max_concurrent: 0 };
    assert!(config.validate().is_err());
}

#[test]
fn test_custom_valid() {
    let config = LimiterConfig::Custom {
        name: "my-limiter".into(),
        config: key_value_config(),
    };
    assert!(config.validate().is_ok());
}

#[test]
fn test_custom_empty_name() {
    let config = LimiterConfig::Custom {
        name: "".into(),
        config: key_value_config(),
    };
    assert!(config.validate().is_err());
}

#[test]
fn test_custom_null_config() {
    let config = LimiterConfig::Custom {
        name: "my-limiter".into(),
        config: JsonValue::Null,
    };
    assert!(config.validate().is_err());
}

#[test]
fn test_quota_valid() {
    let config = LimiterConfig::Quota {
        quota_type: QuotaType::Count,
        limit: 1000,
        window: "1d".into(),
        alert_threshold: Some(80),
        overdraft: Some(OverdraftConfig {
            enabled: true,
            max_overdraft: 100,
        }),
    };
    assert!(config.validate().is_ok());
}

#[test]
fn test_quota_zero_limit() {
    let config = LimiterConfig::Quota {
        quota_type: QuotaType::Count,
        limit: 0,
        window: "1d".into(),
        alert_threshold: None,
        overdraft: None,
    };
    assert!(config.validate().is_err());
}

#[test]
fn test_quota_threshold_overflow() {
    let config = LimiterConfig::Quota {
        quota_type: QuotaType::Count,
        limit: 1000,
        window: "1d".into(),
        alert_threshold: Some(150),
        overdraft: None,
    };
    assert!(config.validate().is_err());
}

#[test]
fn test_quota_overdraft_enabled_zero() {
    let config = LimiterConfig::Quota {
        quota_type: QuotaType::Count,
        limit: 1000,
        window: "1d".into(),
        alert_threshold: None,
        overdraft: Some(OverdraftConfig {
            enabled: true,
            max_overdraft: 0,
        }),
    };
    assert!(config.validate().is_err());
}

#[test]
fn test_quota_overdraft_disabled() {
    let config = LimiterConfig::Quota {
        quota_type: QuotaType::Count,
        limit: 1000,
        window: "1d".into(),
        alert_threshold: None,
        overdraft: Some(OverdraftConfig {
            enabled: false,
            max_overdraft: 0,
        }),
    };
    assert!(config.validate().is_ok());
}

// ---------------------------------------------------------------- security

#[test]
fn test_valid_config_security() {
    let mut rule = sample_rule("test_rule");
    rule.matchers = vec![Matcher::User {
        user_ids: vec!["user1".to_string(), "user2".to_string()],
    }];
    rule.limiters = vec![LimiterConfig::TokenBucket {
        capacity: 100,
        refill_rate: 10,
    }];
    let config = config_with("1.0.0", vec![rule]);

    let report = ConfigSecurityValidator::validate_config(&config);
    assert!(report.is_safe);
    assert!(report.warnings.is_empty());
}

#[test]
fn test_suspicious_user_id() {
    let mut rule = sample_rule("test_rule");
    rule.matchers = vec![Matcher::User {
        user_ids: vec!["user<script>alert(1)</script>".to_string()],
    }];
    rule.limiters = vec![LimiterConfig::TokenBucket {
        capacity: 100,
        refill_rate: 10,
    }];
    let config = config_with("1.0.0", vec![rule]);

    let report = ConfigSecurityValidator::validate_config(&config);
    assert!(!report.is_safe);
    assert!(report.warnings.iter().any(|w| w.contains("特殊字符")));
}

#[test]
fn test_empty_version() {
    let config = config_with("", vec![]);

    let report = ConfigSecurityValidator::validate_config(&config);
    assert!(!report.is_safe);
    assert!(report.warnings.iter().any(|w| w.contains("版本号")));
}

// ---------------------------------------------------------------- tables

#[test]
fn test_create_all_tables_ddl() {
    let ddl = create_all_tables_ddl();
    assert!(ddl.contains("limiteron_bans"));
    assert!(ddl.contains("limiteron_quotas"));
    assert!(ddl.contains("limiteron_rate_limits"));
    assert!(ddl.contains("limiteron_kv"));
}

#[test]
fn test_outbox_ddl_contains_table() {
    assert!(event_outbox::create_table_ddl().contains("limiteron_event_outbox"));
    assert!(event_outbox::create_table_ddl_sqlite().contains("limiteron_event_outbox"));
    assert!(event_outbox::create_table_ddl_sqlite().contains("delivery_status"));
}

#[test]
fn test_create_rate_key() {
    assert_eq!(
        rate_limit::create_rate_key("user1", "token_bucket", "100/1s"),
        "user1:token_bucket:100/1s"
    );
    assert_eq!(
        rate_limit::create_rate_key("192.168.1.1", "fixed_window", "60/1m"),
        "192.168.1.1:fixed_window:60/1m"
    );
}

#[test]
fn test_create_table_ddl() {
    let ddl = rate_limit::create_table_ddl();
    assert!(ddl.contains("limiteron_rate_limits"));
    assert!(ddl.contains("rate_key"));
    assert!(ddl.contains("capacity"));
}

// ---------------------------------------------------------------- decision chain

#[test]
fn decision_chain_test_decision_chain_builder() {
    let node1 = DecisionNode::new(
        "node1".to_string(),
        "Token Bucket".to_string(),
        TokenBucketLimiter::new(100, 10),
        100,
    );
    let node2 = DecisionNode::new(
        "node2".to_string(),
        "Second Bucket".to_string(),
        TokenBucketLimiter::new(100, 100),
        50,
    );

    let chain = DecisionChainBuilder::new().add_node(node1).add_node(node2).build();

    assert_eq!(chain.node_count(), 2);
}

#[test]
fn types_test_decision_chain_builder() {
    let node1 = DecisionNode::with_dependencies(
        "node1".to_string(),
        "Token Bucket".to_string(),
        TokenBucketLimiter::new(100, 10),
        100,
    );
    let node2 = DecisionNode::with_dependencies(
        "node2".to_string(),
        "Second Bucket".to_string(),
        TokenBucketLimiter::new(100, 100),
        50,
    );

    let chain = DecisionChainBuilder::new().add_node(node1).add_node(node2).build();

    assert_eq!(chain.node_count(), 2);
}

#[test]
fn test_atomic_chain_stats_new() {
    let stats = AtomicChainStats::new();
    let snapshot = stats.snapshot();

    assert_eq!(snapshot.total_checks, 0);
    assert_eq!(snapshot.allowed_count, 0);
    assert_eq!(snapshot.rejected_count, 0);
    assert_eq!(snapshot.error_count, 0);
    assert!(snapshot.node_rejections.is_empty());
}

#[test]
fn test_atomic_chain_stats_default() {
    let stats = AtomicChainStats::default();
    let snapshot = stats.snapshot();

    assert_eq!(snapshot.total_checks, 0);
}

#[test]
fn test_atomic_chain_stats_increment_operations() {
    let mut stats = AtomicChainStats::new();

    stats.increment_total();
    stats.increment_total();
    stats.increment_total();

    stats.increment_allowed();
    stats.increment_allowed();

    stats.increment_rejected();

    stats.increment_error();
    stats.increment_error();
    stats.increment_error();

    let snapshot = stats.snapshot();
    assert_eq!(snapshot.total_checks, 3);
    assert_eq!(snapshot.allowed_count, 2);
    assert_eq!(snapshot.rejected_count, 1);
    assert_eq!(snapshot.error_count, 3);
}

#[test]
fn test_atomic_chain_stats_node_rejections() {
    let mut stats = AtomicChainStats::new();

    stats.increment_node_rejection("node1");
    stats.increment_node_rejection("node1");
    stats.increment_node_rejection("node1");
    stats.increment_node_rejection("node2");

    let snapshot = stats.snapshot();
    assert_eq!(snapshot.node_rejections.len(), 2);

    let node1_count = snapshot
        .node_rejections
        .iter()
        .find(|(id, _)| id == "node1")
        .map(|(_, count)| *count)
        .unwrap_or(0);
    let node2_count = snapshot
        .node_rejections
        .iter()
        .find(|(id, _)| id == "node2")
        .map(|(_, count)| *count)
        .unwrap_or(0);

    assert_eq!(node1_count, 3);
    assert_eq!(node2_count, 1);
}

#[test]
fn test_atomic_chain_stats_reset() {
    let mut stats = AtomicChainStats::new();

    stats.increment_total();
    stats.increment_allowed();
    stats.increment_node_rejection("node1");

    stats.reset();

    let snapshot = stats.snapshot();
    assert_eq!(snapshot.total_checks, 0);
    assert_eq!(snapshot.allowed_count, 0);
    assert!(snapshot.node_rejections.is_empty());
}

#[test]
fn test_decision_chain_reset_stats_sync() {
    let node = DecisionNode::with_dependencies(
        "node1".to_string(),
        "Token Bucket".to_string(),
        TokenBucketLimiter::new(10, 1),
        100,
    );

    let mut chain = DecisionChain::with_dependencies(vec![node]);

    chain.reset_stats_sync();

    let stats = chain.stats_sync();
    assert_eq!(stats.total_checks, 0);
}

#[test]
fn test_decision_chain_builder_method() {
    let builder: DecisionChainBuilder = DecisionChain::builder();
    let chain = builder.build();
    assert_eq!(chain.node_count(), 0);
}

// ---------------------------------------------------------------- devices

#[test]
fn test_device_info_description() {
    let info1 = DeviceInfo {
        device_type: DeviceType::Mobile,
        browser: Some("Safari".to_string()),
        browser_version: Some("14.0".to_string()),
        os: Some("iOS".to_string()),
        os_version: Some("14.0".to_string()),
        user_agent: None,
    };
    assert!(info1.description().contains("Safari"));
    assert!(info1.description().contains("iOS"));

    let info2 = DeviceInfo {
        device_type: DeviceType::API,
        browser: None,
        browser_version: None,
        os: None,
        os_version: None,
        user_agent: None,
    };
    assert_eq!(info2.description(), "API Client");
}

// ---------------------------------------------------------------- errors

#[test]
fn test_error_types_clone_eq() {
    assert_eq!(ConfigSafeError::InvalidFormat.clone(), ConfigSafeError::InvalidFormat);
    assert_eq!(StorageSafeError::StorageFull.clone(), StorageSafeError::StorageFull);
    assert_eq!(LimitSafeError::QuotaExceeded.clone(), LimitSafeError::QuotaExceeded);
    assert_eq!(BanSafeError::SpamDetected.clone(), BanSafeError::SpamDetected);
    assert_eq!(ValidationSafeError::MalformedData.clone(), ValidationSafeError::MalformedData);
    assert_eq!(GeneralSafeError::Forbidden.clone(), GeneralSafeError::Forbidden);
}

#[test]
fn error_impl_test_error_message() {
    let error = LimiteronError::ConfigError("测试错误".to_string());
    assert_eq!(error.to_string(), "Configuration error: 测试错误");
}

#[test]
fn test_localized_dual_track() {
    let err = LimiteronError::StorageError(StorageError::NotFound("k".into()));
    assert_eq!(err.to_string(), "Storage error: Not found: k");
    assert_eq!(err.message_key(), "error-storage-not-found");
    let wrapped = LimiteronError::StorageError(StorageError::QueryError("q".into()));
    assert_eq!(wrapped.message_key(), "error-storage-query");
    assert_eq!(wrapped.message_args(), vec![("message", "q".to_string())]);
}

#[test]
fn error_impl_test_storage_error_conversion() {
    let storage_error = StorageError::NotFound("test_key".to_string());
    let flowguard_error = LimiteronError::from_storage(storage_error);
    assert!(matches!(flowguard_error, LimiteronError::StorageError(_)));
}

#[test]
fn error_impl_test_decision_allowed() {
    let metadata = RateLimitMetadata {
        limit: 100,
        remaining: 99,
        reset_at: 1234567890,
        retry_after: None,
        policy: "token_bucket".to_string(),
    };
    let decision = Decision::Allowed(metadata.clone());
    assert_eq!(decision, Decision::Allowed(metadata));
    assert!(matches!(decision, Decision::Allowed(_)));
}

#[test]
fn error_impl_test_decision_rejected() {
    let metadata = RejectionMetadata::new("rate limit exceeded".to_string(), 60, 100, 1234567890);
    let decision = Decision::Rejected(metadata.clone());
    assert!(matches!(decision, Decision::Rejected(_)));
    assert_eq!(decision.rate_limit_metadata().unwrap().remaining, 0);
}

#[test]
fn test_decision_allowed_default() {
    let decision = Decision::allowed_default();
    assert!(matches!(decision, Decision::Allowed(_)));
}

#[test]
fn test_decision_allowed_constructor() {
    let metadata = RateLimitMetadata {
        limit: 200,
        remaining: 150,
        reset_at: 999,
        retry_after: None,
        policy: "sliding".to_string(),
    };
    let decision = Decision::allowed(metadata.clone());
    let retrieved = decision.rate_limit_metadata().expect("should have metadata");
    assert_eq!(retrieved.limit, 200);
    assert_eq!(retrieved.remaining, 150);
    assert_eq!(retrieved.reset_at, 999);
    assert_eq!(retrieved.policy, "sliding");
}

#[test]
fn test_decision_rejected_constructor() {
    let metadata = RejectionMetadata::new("too many".to_string(), 30, 100, 12345);
    let decision = Decision::rejected(metadata);
    let retrieved = decision.rate_limit_metadata().expect("should have metadata");
    assert_eq!(retrieved.limit, 100);
    assert_eq!(retrieved.remaining, 0);
    assert_eq!(retrieved.reset_at, 12345);
    assert_eq!(retrieved.retry_after, Some(30));
}

#[test]
fn test_flowguard_error_variants_display() {
    assert_eq!(LimiteronError::LimitError("x".into()).to_string(), "Rate limit error: x");
    assert_eq!(LimiteronError::BanError("x".into()).to_string(), "Ban error: x");
    assert_eq!(
        LimiteronError::CircuitBreakerError("x".into()).to_string(),
        "Circuit breaker error: x"
    );
    assert_eq!(LimiteronError::FallbackError("x".into()).to_string(), "Fallback error: x");
    assert_eq!(LimiteronError::AuditLogError("x".into()).to_string(), "Audit log error: x");
    assert_eq!(
        LimiteronError::AuthorizationError("x".into()).to_string(),
        "Authorization error: x"
    );
    assert_eq!(
        LimiteronError::RateLimitExceeded("x".into()).to_string(),
        "Rate limit exceeded: x"
    );
    assert_eq!(LimiteronError::QuotaExceeded("x".into()).to_string(), "Quota exceeded: x");
    assert_eq!(
        LimiteronError::ConcurrencyLimitExceeded("x".into()).to_string(),
        "Concurrency limit exceeded: x"
    );
    assert_eq!(LimiteronError::ValidationError("x".into()).to_string(), "Validation error: x");
    assert_eq!(LimiteronError::LockError("x".into()).to_string(), "Lock acquisition error: x");
    assert_eq!(LimiteronError::TimeError("x".into()).to_string(), "Time error: x");
    assert_eq!(LimiteronError::DependencyError("x".into()).to_string(), "Missing dependency: x");
    assert_eq!(LimiteronError::Other("x".into()).to_string(), "Unknown error: x");
}

#[test]
fn test_storage_error_from_into_flowguard() {
    let se = StorageError::QueryError("q".into());
    let fg = LimiteronError::from_storage(se);
    assert!(matches!(fg, LimiteronError::StorageError(_)));
    let back = match fg {
        LimiteronError::StorageError(s) => s,
        _ => unreachable!(),
    };
    assert!(matches!(back, StorageError::QueryError(_)));
}
