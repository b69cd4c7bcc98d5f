use limiteron::device_matcher::{DeviceCondition, DeviceInfo, DeviceMatcher, DeviceType};

#[test]
fn test_device_type_from_str() {
    assert_eq!(DeviceType::from_str("mobile"), DeviceType::Mobile);
    assert_eq!(DeviceType::from_str("desktop"), DeviceType::Desktop);
    assert_eq!(DeviceType::from_str("tablet"), DeviceType::Tablet);
    assert_eq!(DeviceType::from_str("api"), DeviceType::API);
    assert_eq!(DeviceType::from_str("unknown"), DeviceType::Unknown);
    assert_eq!(DeviceType::from_str("invalid"), DeviceType::Unknown);
}

#[test]
fn test_device_type_as_str() {
    assert_eq!(DeviceType::Mobile.as_str(), "mobile");
    assert_eq!(DeviceType::Desktop.as_str(), "desktop");
    assert_eq!(DeviceType::Tablet.as_str(), "tablet");
    assert_eq!(DeviceType::API.as_str(), "api");
    assert_eq!(DeviceType::Unknown.as_str(), "unknown");
}

#[test]
fn test_device_type_is_mobile() {
    assert!(DeviceType::Mobile.is_mobile());
    assert!(DeviceType::Tablet.is_mobile());
    assert!(!DeviceType::Desktop.is_mobile());
    assert!(!DeviceType::API.is_mobile());
}

#[test]
fn test_device_info_empty() {
    let info = DeviceInfo::empty();
    assert!(info.is_empty());
    assert_eq!(info.description(), "unknown");
}

#[test]
fn test_device_condition_empty() {
    let condition = DeviceCondition::empty();
    assert!(condition.is_empty());

    let info = DeviceInfo::empty();
    assert!(condition.matches(&info));
}

#[test]
fn test_device_condition_device_types() {
    let condition = DeviceCondition::device_types(vec![DeviceType::Mobile]);

    let info1 = DeviceInfo {
        device_type: DeviceType::Mobile,
        browser: None,
        browser_version: None,
        os: None,
        os_version: None,
        user_agent: None,
    };
    assert!(condition.matches(&info1));

    let info2 = DeviceInfo {
        device_type: DeviceType::Desktop,
        browser: None,
        browser_version: None,
        os: None,
        os_version: None,
        user_agent: None,
    };
    assert!(!condition.matches(&info2));
}

#[test]
fn test_device_condition_browsers() {
    let condition = DeviceCondition::browsers(vec!["Safari".to_string(), "Chrome".to_string()]);

    let info1 = DeviceInfo {
        device_type: DeviceType::Mobile,
        browser: Some("Safari".to_string()),
        browser_version: None,
        os: None,
        os_version: None,
        user_agent: None,
    };
    assert!(condition.matches(&info1));

    let info2 = DeviceInfo {
        device_type: DeviceType::Mobile,
        browser: Some("Firefox".to_string()),
        browser_version: None,
        os: None,
        os_version: None,
        user_agent: None,
    };
    assert!(!condition.matches(&info2));
}

#[test]
fn test_device_condition_os() {
    let condition = DeviceCondition::os(vec!["iOS".to_string(), "Android".to_string()]);

    let info1 = DeviceInfo {
        device_type: DeviceType::Mobile,
        browser: None,
        browser_version: None,
        os: Some("iOS".to_string()),
        os_version: None,
        user_agent: None,
    };
    assert!(condition.matches(&info1));

    let info2 = DeviceInfo {
        device_type: DeviceType::Desktop,
        browser: None,
        browser_version: None,
        os: Some("Windows".to_string()),
        os_version: None,
        user_agent: None,
    };
    assert!(!condition.matches(&info2));
}

#[test]
fn test_device_condition_default() {
    let condition = DeviceCondition::default();
    assert!(condition.is_empty());
}

#[test]
fn test_device_matcher_cache() {
    let mut matcher = DeviceMatcher::new().unwrap();
    let user_agent = "Mozilla/5.0 (iPhone; CPU iPhone OS 14_0 like Mac OS X)";

    let info1 = matcher.parse(user_agent).unwrap();
    let stats1 = matcher.cache_stats();
    assert_eq!(stats1.size, 1);
    assert_eq!(stats1.limit, 10_000);

    let info2 = matcher.parse(user_agent).unwrap();
    assert_eq!(info1, info2);

    matcher.clear_cache();
    let stats2 = matcher.cache_stats();
    assert_eq!(stats2.size, 0);
}
