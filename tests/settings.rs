use cargo_limit::cutoff::Config;
use cargo_limit::settings::{parse_flag, parse_number, requests_json, starts_with, ConfigError, Settings};

fn unset() -> Settings {
    Settings { message_limit: None, time_limit: None, ascending: None, force_warn: None, deps_warn: None }
}

#[test]
fn numbers_parse_as_decimal() {
    assert_eq!(parse_number("42"), Some(42));
    assert_eq!(parse_number("+7"), Some(7));
    assert_eq!(parse_number("0"), Some(0));
    assert_eq!(parse_number("18446744073709551615"), Some(u64::MAX));
    assert_eq!(parse_number("18446744073709551616"), None);
    assert_eq!(parse_number(""), None);
    assert_eq!(parse_number("+"), None);
    assert_eq!(parse_number("1x"), None);
    assert_eq!(parse_number("-1"), None);
}

#[test]
fn flags_parse_exactly() {
    assert_eq!(parse_flag("true"), Some(true));
    assert_eq!(parse_flag("false"), Some(false));
    assert_eq!(parse_flag("True"), None);
    assert_eq!(parse_flag("truex"), None);
    assert_eq!(parse_flag(""), None);
}

#[test]
fn prefix_test() {
    assert!(starts_with("--message-format=json-render", "--message-format=json"));
    assert!(!starts_with("--message-format=short", "--message-format=json"));
    assert!(!starts_with("--m", "--message-format=json"));
}

#[test]
fn defaults_when_unset() {
    let c: Config = Config::from_settings(&unset(), &vec!["build".to_string()]).unwrap();
    assert_eq!(c.message_limit, 0);
    assert_eq!(c.time_limit_seconds, 1);
    assert!(!c.ascending && !c.force_warn && !c.show_deps_warnings && !c.json_output);
}

#[test]
fn settings_are_read() {
    let s = Settings {
        message_limit: Some("3".to_string()),
        time_limit: Some("0".to_string()),
        ascending: Some("true".to_string()),
        force_warn: Some("true".to_string()),
        deps_warn: Some("false".to_string()),
    };
    let args = vec!["build".to_string(), "--message-format=json".to_string()];
    let c = Config::from_settings(&s, &args).unwrap();
    assert_eq!(c.message_limit, 3);
    assert_eq!(c.time_limit_seconds, 0);
    assert!(c.ascending && c.force_warn && !c.show_deps_warnings && c.json_output);
    assert!(requests_json(&args));
}

#[test]
fn malformed_settings_are_reported() {
    let mut s = unset();
    s.message_limit = Some("many".to_string());
    assert_eq!(Config::from_settings(&s, &vec![]).unwrap_err(), ConfigError::MessageLimit);
    let mut s = unset();
    s.time_limit = Some("-1".to_string());
    assert_eq!(Config::from_settings(&s, &vec![]).unwrap_err(), ConfigError::TimeLimit);
    let mut s = unset();
    s.ascending = Some("yes".to_string());
    assert_eq!(Config::from_settings(&s, &vec![]).unwrap_err(), ConfigError::Ascending);
    let mut s = unset();
    s.force_warn = Some("1".to_string());
    assert_eq!(Config::from_settings(&s, &vec![]).unwrap_err(), ConfigError::ForceWarn);
    let mut s = unset();
    s.deps_warn = Some("".to_string());
    assert_eq!(Config::from_settings(&s, &vec![]).unwrap_err(), ConfigError::DepsWarn);
}
