use limiteron::code_review::{aggregate_results, format_report_as_markdown, CodeReviewConfig};
use limiteron::device_matcher::{validate_regex_pattern, DeviceMatcher, DeviceType};

#[test]
fn device_matcher_recognises_an_iphone() {
    let mut m = DeviceMatcher::new().unwrap();
    let ua = "Mozilla/5.0 (iPhone; CPU iPhone OS 14_0 like Mac OS X) AppleWebKit/605.1.15 (KHTML, like Gecko) Version/14.0 Mobile/15E148 Safari/604.1";
    let info = m.parse(ua).unwrap();
    assert_eq!(info.device_type, DeviceType::Mobile);
    assert_eq!(info.browser.as_deref(), Some("Safari"));
    let again = m.parse(ua).unwrap();
    assert_eq!(again, info);
}

#[test]
fn device_matcher_custom_rule_decides_first() {
    let mut m = DeviceMatcher::new().unwrap();
    m.add_custom_rule("bot", "(?i)curl/", DeviceType::API, None, None);
    let info = m.parse("curl/8.0").unwrap();
    assert_eq!(info.device_type, DeviceType::API);
}

#[test]
fn regex_patterns_are_checked() {
    assert!(validate_regex_pattern("^[a-z]+$").is_ok());
    assert!(validate_regex_pattern("([a-z]+").is_err());
}

#[test]
fn report_shows_its_time() {
    let report = aggregate_results(&CodeReviewConfig::default(), vec![], 0);
    let text = format_report_as_markdown(&report);
    assert!(text.contains("1970-01-01 00:00:00 UTC"));
}
