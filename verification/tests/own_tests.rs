use limiteron::cli::{
    apply_ready, apply_report, collect_warnings, export_report, parse_args, serialization_failure,
    usage, usage_error, validate_report, version_is_semver, version_report, write_failure,
    CliCommand, WriteOutcome, EXIT_ERROR, EXIT_OK, EXIT_WARNINGS,
};
use limiteron::config::flow::FlowControlConfig;
use limiteron::config::global::GlobalConfig;
use limiteron::config::history::ChangeSource;
use limiteron::config::limiter::LimiterConfig;
use limiteron::config::loader::{ConfigFormat, ConfigLoader};
use limiteron::config::names::{Action, CacheBackend, MetricsBackend, StorageType};
use limiteron::config::rule::{ActionConfig, Matcher, Rule};
use limiteron::config_watcher::{change_source, should_check, ConfigWatcher, FileEventKind, WatchMode};
use limiteron::db_storage::{delete_query, get_query, set_query};
use limiteron::dbnexus_entities::{ban_record, quota_record};
use limiteron::error::{LimiteronError, StorageError};
use limiteron::json::JsonValue;
use limiteron::time::Duration;

fn args(v: &[&str]) -> Vec<String> {
    v.iter().map(|s| s.to_string()).collect()
}

fn rule(id: &str, priority: u16) -> Rule {
    Rule {
        id: id.to_string(),
        name: format!("rule {}", id),
        priority,
        matchers: vec![Matcher::User {
            user_ids: vec!["u1".to_string()],
        }],
        limiters: vec![LimiterConfig::TokenBucket {
            capacity: 10,
            refill_rate: 1,
        }],
        action: ActionConfig {
            on_exceed: Action::Reject,
            ban: None,
        },
    }
}

fn config(version: &str, rules: Vec<Rule>) -> FlowControlConfig {
    FlowControlConfig {
        version: version.to_string(),
        global: GlobalConfig::default(),
        rules,
    }
}

fn member<'a>(v: &'a JsonValue, key: &str) -> &'a JsonValue {
    v.get(key).expect("member present")
}

// ---------------------------------------------------------------- arguments

#[test]
fn cli_parse_no_arguments_asks_for_help() {
    assert_eq!(parse_args(&args(&[])), CliCommand::Help);
    assert_eq!(parse_args(&args(&["-h"])), CliCommand::Help);
    assert_eq!(parse_args(&args(&["--version"])), CliCommand::Version);
}

#[test]
fn cli_parse_commands_with_paths() {
    assert_eq!(parse_args(&args(&["validate", "a.toml"])), CliCommand::Validate("a.toml".to_string()));
    assert_eq!(parse_args(&args(&["export", "b.json"])), CliCommand::Export("b.json".to_string()));
    assert_eq!(
        parse_args(&args(&["apply", "c.yaml"])),
        CliCommand::Apply { path: "c.yaml".to_string(), out: None }
    );
    assert_eq!(
        parse_args(&args(&["apply", "c.yaml", "--out", "x.json", "--out", "y.json"])),
        CliCommand::Apply { path: "c.yaml".to_string(), out: Some("y.json".to_string()) }
    );
}

#[test]
fn cli_parse_usage_errors() {
    assert_eq!(
        parse_args(&args(&["validate"])),
        CliCommand::Invalid {
            command: "validate".to_string(),
            message: "missing <config-file> argument".to_string()
        }
    );
    assert_eq!(
        parse_args(&args(&["apply"])),
        CliCommand::Invalid {
            command: "apply".to_string(),
            message: "missing <config-file> argument".to_string()
        }
    );
    assert_eq!(
        parse_args(&args(&["apply", "x.json", "--out"])),
        CliCommand::Invalid {
            command: "apply".to_string(),
            message: "--out requires a file argument".to_string()
        }
    );
    assert_eq!(
        parse_args(&args(&["apply", "x.json", "--dry"])),
        CliCommand::Invalid {
            command: "apply".to_string(),
            message: "unknown option '--dry'".to_string()
        }
    );
    assert_eq!(
        parse_args(&args(&["frobnicate"])),
        CliCommand::Invalid {
            command: "frobnicate".to_string(),
            message: "unknown command".to_string()
        }
    );
}

// ---------------------------------------------------------------- warnings

#[test]
fn cli_semver_shape() {
    assert!(version_is_semver("1.0.0"));
    assert!(version_is_semver("10.20.30"));
    assert!(!version_is_semver("1.0"));
    assert!(!version_is_semver("1..0"));
    assert!(!version_is_semver(".1.0"));
    assert!(!version_is_semver("1.0."));
    assert!(!version_is_semver("a.b.c"));
    assert!(!version_is_semver(""));
}

#[test]
fn cli_warnings_for_version_and_repeated_priority() {
    let c = config("1.0", vec![rule("a", 5), rule("b", 5), rule("c", 6), rule("d", 5)]);
    let w = collect_warnings(&c);
    assert_eq!(w.len(), 3);
    assert_eq!(w[0], "version '1.0' 不是 x.y.z 数字形态（语义化版本建议）");
    assert_eq!(w[1], "规则 'b' 的 priority 5 与其他规则重复（匹配顺序歧义）");
    assert_eq!(w[2], "规则 'd' 的 priority 5 与其他规则重复（匹配顺序歧义）");
    let clean = config("1.0.0", vec![rule("a", 1), rule("b", 2)]);
    assert!(collect_warnings(&clean).is_empty());
}

// ---------------------------------------------------------------- answers

#[test]
fn cli_usage_and_version_answers() {
    let inv = usage();
    assert_eq!(inv.exit_code, EXIT_OK);
    assert_eq!(member(&inv.output, "command").as_str(), Some("help"));
    let u = member(&inv.output, "usage");
    assert_eq!(member(u, "apply").as_str(), Some("apply <config-file> [--out <output-file>]"));
    let v = version_report("0.1.0");
    assert_eq!(member(&v.output, "version").as_str(), Some("0.1.0"));
    let e = usage_error("frobnicate", "unknown command");
    assert_eq!(e.exit_code, EXIT_ERROR);
    assert_eq!(member(&e.output, "command").as_str(), Some("frobnicate"));
    assert_eq!(member(&e.output, "ok").as_bool(), Some(false));
}

#[test]
fn cli_validate_answers() {
    let missing: Result<FlowControlConfig, String> = Err("IO error: not found".to_string());
    let inv = validate_report("/nonexistent/limiteron.toml", &missing, "h");
    assert_eq!(inv.exit_code, EXIT_ERROR);
    assert_eq!(member(&inv.output, "valid").as_bool(), Some(false));
    assert_eq!(member(&inv.output, "errors").as_array().unwrap().len(), 1);

    let ok: Result<FlowControlConfig, String> = Ok(config("1.0.0", vec![rule("r1", 10)]));
    let inv = validate_report("c.json", &ok, "abc");
    assert_eq!(inv.exit_code, EXIT_OK);
    assert_eq!(member(&inv.output, "valid").as_bool(), Some(true));
    assert_eq!(member(&inv.output, "rule_count").as_u64(), Some(1));
    assert_eq!(member(&inv.output, "config_hash").as_str(), Some("abc"));

    let warned: Result<FlowControlConfig, String> =
        Ok(config("1.0.0", vec![rule("a", 5), rule("b", 5)]));
    let inv = validate_report("c.json", &warned, "abc");
    assert_eq!(inv.exit_code, EXIT_WARNINGS);
    assert_eq!(member(&inv.output, "warnings").as_array().unwrap().len(), 1);

    let mut bad_rule = rule("bad", 1);
    bad_rule.limiters = vec![];
    let invalid: Result<FlowControlConfig, String> = Ok(config("1.0.0", vec![bad_rule]));
    let inv = validate_report("c.json", &invalid, "abc");
    assert_eq!(inv.exit_code, EXIT_ERROR);
    let errors = member(&inv.output, "errors").as_array().unwrap();
    assert!(errors[0].as_str().unwrap().contains("限流器"));

    let empty: Result<FlowControlConfig, String> = Ok(config("1.0.0", vec![]));
    let inv = validate_report("c.yaml", &empty, "abc");
    assert_eq!(inv.exit_code, EXIT_ERROR);
    let errors = member(&inv.output, "errors").as_array().unwrap();
    assert!(errors[0].as_str().unwrap().contains("至少需要一个规则"));
}

#[test]
fn cli_export_answers() {
    let inv = export_report("c.json", Ok(JsonValue::Bool(true)));
    assert_eq!(inv.exit_code, EXIT_OK);
    assert_eq!(member(&inv.output, "format").as_str(), Some("json"));
    assert_eq!(member(&inv.output, "config").as_bool(), Some(true));
    let inv = export_report("/nonexistent/config.yaml", Err("not found".to_string()));
    assert_eq!(inv.exit_code, EXIT_ERROR);
    assert!(inv.output.get("config").is_none());
}

#[test]
fn cli_apply_answers() {
    let ok: Result<FlowControlConfig, String> = Ok(config("1.0.0", vec![rule("r1", 10)]));
    assert!(apply_ready(&ok));
    let inv = apply_report("c.json", &ok, "abc", WriteOutcome::NotRequested);
    assert_eq!(inv.exit_code, EXIT_OK);
    assert_eq!(member(&inv.output, "dry_run").as_bool(), Some(true));
    assert_eq!(member(&inv.output, "applied").as_bool(), Some(true));
    assert_eq!(member(&inv.output, "rules_applied").as_u64(), Some(1));

    let inv = apply_report("c.json", &ok, "abc", WriteOutcome::Written("out.json".to_string()));
    assert_eq!(member(&inv.output, "written_to").as_str(), Some("out.json"));

    let failure = write_failure("/nonexistent-dir/x.json", "No such file or directory");
    assert_eq!(
        failure,
        "failed to write normalized config to '/nonexistent-dir/x.json': No such file or directory"
    );
    let inv = apply_report("c.json", &ok, "abc", WriteOutcome::Failed(failure));
    assert_eq!(inv.exit_code, EXIT_ERROR);
    assert_eq!(member(&inv.output, "applied").as_bool(), Some(false));

    let missing: Result<FlowControlConfig, String> = Err("not found".to_string());
    assert!(!apply_ready(&missing));
    let inv = apply_report("/nonexistent/config.toml", &missing, "", WriteOutcome::NotRequested);
    assert_eq!(inv.exit_code, EXIT_ERROR);
    assert_eq!(member(&inv.output, "applied").as_bool(), Some(false));
    assert!(inv.output.get("dry_run").is_none());

    assert_eq!(serialization_failure("boom"), "config serialization failed: boom");
}

// ---------------------------------------------------------------- watcher

#[test]
fn watcher_start_stop_and_tasks() {
    let mut w = ConfigWatcher::new(Some("config.toml".to_string()), Duration::from_secs(5), WatchMode::Hybrid);
    assert!(!w.is_running());
    assert_eq!(w.start(), Ok(vec![WatchMode::Poll, WatchMode::Watch]));
    assert!(w.is_running());
    assert_eq!(w.start(), Err("配置监视器已在运行".to_string()));
    w.stop();
    assert!(!w.is_running());
    assert_eq!(WatchMode::default(), WatchMode::Poll);
}

#[test]
fn watcher_records_a_change_once() {
    let mut w = ConfigWatcher::new(None, Duration::from_secs(5), WatchMode::Watch);
    let c = config("2.0.0", vec![rule("a", 1)]);
    assert!(w.record_check(WatchMode::Watch, &c, "h1".to_string(), None, None, 7));
    assert_eq!(w.get_current_hash(), "h1");
    assert_eq!(w.get_current_version(), "2.0.0");
    assert_eq!(w.get_history().len(), 1);
    assert_eq!(w.get_history()[0].source, ChangeSource::Watch);
    assert_eq!(w.get_history()[0].timestamp_millis, 7);
    assert!(!w.record_check(WatchMode::Watch, &c, "h1".to_string(), None, None, 8));
    assert_eq!(w.get_history().len(), 1);
    assert_eq!(change_source(WatchMode::Hybrid), ChangeSource::Poll);
    assert!(should_check(FileEventKind::Modify));
    assert!(should_check(FileEventKind::Create));
    assert!(!should_check(FileEventKind::Other));
}

// ---------------------------------------------------------------- loader

#[test]
fn loader_formats_by_extension() {
    assert_eq!(ConfigLoader::format_for_extension("YML"), Ok(ConfigFormat::Yaml));
    assert_eq!(ConfigLoader::format_for_extension("toml"), Ok(ConfigFormat::Toml));
    assert_eq!(ConfigLoader::format_for_extension("json"), Ok(ConfigFormat::Json));
    match ConfigLoader::format_for_extension("TXT") {
        Err(LimiteronError::ConfigError(m)) => assert_eq!(
            m,
            "Unsupported config file format: txt. Supported: yaml, yml, toml, json"
        ),
        other => panic!("unexpected {:?}", other),
    }
    match ConfigLoader::not_found("/tmp/x.yaml") {
        LimiteronError::ConfigError(m) => assert!(m.contains("not found")),
        other => panic!("unexpected {:?}", other),
    }
    match ConfigLoader::parse_failure(ConfigFormat::Toml, "bad") {
        LimiteronError::ConfigError(m) => assert_eq!(m, "Failed to parse TOML config: bad"),
        other => panic!("unexpected {:?}", other),
    }
}

#[test]
fn loader_env_overrides() {
    let c = config("1.0.0", vec![rule("a", 1)]);
    let r = ConfigLoader::apply_env_overrides(c, Some("redis".to_string()), Some(" none ".to_string()), Some("  ".to_string()))
        .unwrap();
    assert_eq!(r.global.storage, StorageType::Redis);
    assert_eq!(r.global.cache, CacheBackend::Disabled);
    assert_eq!(r.global.metrics, MetricsBackend::Prometheus);

    let c = config("1.0.0", vec![rule("a", 1)]);
    match ConfigLoader::apply_env_overrides(c, None, Some("disk".to_string()), None) {
        Err(LimiteronError::ConfigError(m)) => assert_eq!(
            m,
            "Invalid LIMITERON_GLOBAL_CACHE value: disk. Valid: memory, redis, none"
        ),
        other => panic!("unexpected {:?}", other),
    }
}

// ---------------------------------------------------------------- storage

#[test]
fn storage_queries_escape_quotes() {
    assert_eq!(get_query("it's"), "SELECT value FROM kv_store WHERE key = 'it''s'");
    assert_eq!(delete_query("k"), "DELETE FROM kv_store WHERE key = 'k'");
    assert_eq!(
        set_query("k'", "v"),
        "INSERT OR REPLACE INTO kv_store (key, value, updated_at) VALUES ('k''', 'v', datetime('now'))"
    );
    assert_eq!(ban_record::create_target_key("ip", "1.2.3.4"), "ip:1.2.3.4");
    assert_eq!(quota_record::create_quota_key("u1", "api"), "u1:api");
}

#[test]
fn storage_error_message_arguments() {
    let e = StorageError::TimeoutError("slow".to_string());
    assert_eq!(e.message_args(), vec![("message", "slow".to_string())]);
    let wrapped = LimiteronError::from_storage(StorageError::NotFound("k".to_string()));
    assert_eq!(wrapped.message_args(), vec![("message", "k".to_string())]);
    assert_eq!(LimiteronError::Throttled("t".to_string()).message_key(), "error-throttled");
}
