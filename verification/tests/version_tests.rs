//! Version parsing and comparison.

use baker::version::{is_remote_newer, parse_ms_or, parse_version, should_notify_update};

#[test]
fn test_is_remote_newer() {
    assert!(is_remote_newer("1.0.0", "1.0.1"));
    assert!(is_remote_newer("0.0.0", "0.0.1"));
    // Pre-release suffixes are cut off before comparison, so versions
    // that differ only in the suffix compare as equal.
    assert!(!is_remote_newer("1.0.0-alpha.1", "1.0.0-alpha.2"));
    assert!(!is_remote_newer("1.0.0-alpha.1", "1.0.0-beta.2"));
    assert!(!is_remote_newer("1.0.0-alpha.1", "1.0.0"));
    assert!(!is_remote_newer("1.0.2", "1.0.2"));
    assert!(!is_remote_newer("1.0.2", "1.0.1"));
}

#[test]
fn test_remote_newer_shapes() {
    assert!(is_remote_newer("1.0.0", "v1.1"));
    assert!(is_remote_newer("v1.9.9", "2"));
    assert!(is_remote_newer("1.0", "1.0.1"));
    assert!(!is_remote_newer("1.0.0", "1.0"));
    assert!(!is_remote_newer("1.0.0", "1"));
    assert!(!is_remote_newer("2.0", "1.9.9.9"));
    assert!(is_remote_newer("1.2.3", " v1.2.4-rc.1 "));
    assert!(!is_remote_newer("nonsense", "1.0.0"));
    assert!(!is_remote_newer("1.0.0", "nonsense"));
}

#[test]
fn test_parse_version_forms() {
    assert_eq!(parse_version("1.2.3"), Some(vec![1, 2, 3]));
    assert_eq!(parse_version("v1.2.3"), Some(vec![1, 2, 3]));
    assert_eq!(parse_version("  v10.0  "), Some(vec![10, 0]));
    assert_eq!(parse_version("1.0.0-alpha.1"), Some(vec![1, 0, 0]));
    assert_eq!(parse_version("7"), Some(vec![7]));
    assert_eq!(parse_version(""), None);
    assert_eq!(parse_version("abc"), None);
    assert_eq!(parse_version("1..2"), None);
    assert_eq!(parse_version("1.a.2"), None);
    assert_eq!(parse_version("-1.2"), None);
    assert_eq!(parse_version("18446744073709551615"), Some(vec![u64::MAX]));
    assert_eq!(parse_version("18446744073709551616"), None);
    assert_eq!(parse_version("99999999999999999999999"), None);
}

#[test]
fn test_parse_ms_or() {
    assert_eq!(parse_ms_or("800", 111), 800);
    assert_eq!(parse_ms_or("0", 111), 0);
    assert_eq!(parse_ms_or("+5", 111), 5);
    assert_eq!(parse_ms_or("", 111), 111);
    assert_eq!(parse_ms_or("  800", 111), 111);
    assert_eq!(parse_ms_or("12a", 111), 111);
}

#[test]
fn test_should_notify_update() {
    assert!(should_notify_update("1.0.0", "1.1.0", &None, "2026-01-02"));
    assert!(!should_notify_update("1.1.0", "1.1.0", &None, "2026-01-02"));
    let snoozed_today = Some("2026-01-02".to_string());
    assert!(!should_notify_update("1.0.0", "1.1.0", &snoozed_today, "2026-01-02"));
    let snoozed_earlier = Some("2026-01-01".to_string());
    assert!(should_notify_update("1.0.0", "1.1.0", &snoozed_earlier, "2026-01-02"));
}
