use ot_ews::config::{split_commas, log_level_from, timeout_secs_from, AppConfig, ConfigError, LogLevel};

#[test]
fn settings_are_split_at_commas() {
    let c = AppConfig::from_settings(Some("80,8000-8002"), Some("true"), Some("22,,443")).unwrap();
    assert_eq!(c.ports, vec!["80".to_string(), "8000-8002".to_string()]);
    assert!(c.active);
    assert_eq!(c.scan_ports, vec!["22".to_string(), "".to_string(), "443".to_string()]);
}

#[test]
fn missing_ports_are_fatal() {
    assert_eq!(
        AppConfig::from_settings(None, Some("true"), Some("22")).unwrap_err(),
        ConfigError::MissingPorts
    );
}

#[test]
fn active_only_when_exactly_true() {
    for a in [None, Some("false"), Some("TRUE"), Some("true "), Some("1")] {
        let c = AppConfig::from_settings(Some("80"), a, None).unwrap();
        assert!(!c.active);
    }
}

#[test]
fn unset_scan_ports_is_one_empty_spec() {
    let c = AppConfig::from_settings(Some("80"), None, None).unwrap();
    assert_eq!(c.scan_ports, vec!["".to_string()]);
}

#[test]
fn timeout_defaults_to_thirty() {
    assert_eq!(timeout_secs_from(None), Ok(30));
}

#[test]
fn timeout_reads_positive_numbers() {
    assert_eq!(timeout_secs_from(Some("45")), Ok(45));
    assert_eq!(timeout_secs_from(Some("18446744073709551615")), Ok(u64::MAX));
}

#[test]
fn timeout_rejects_invalid_settings() {
    for bad in ["0", "", "abc", "-5", "1.5", "18446744073709551616"] {
        assert_eq!(timeout_secs_from(Some(bad)), Err(ConfigError::InvalidTimeout), "{}", bad);
    }
}

#[test]
fn log_level_ignores_case() {
    assert_eq!(log_level_from(Some("debug")), LogLevel::Debug);
    assert_eq!(log_level_from(Some("Trace")), LogLevel::Trace);
    assert_eq!(log_level_from(Some("warn")), LogLevel::Warn);
    assert_eq!(log_level_from(Some("ERROR")), LogLevel::Error);
    assert_eq!(log_level_from(Some("info")), LogLevel::Info);
}

#[test]
fn log_level_defaults_to_info() {
    assert_eq!(log_level_from(None), LogLevel::Info);
    assert_eq!(log_level_from(Some("verbose")), LogLevel::Info);
}

#[test]
fn split_commas_keeps_empty_pieces() {
    assert_eq!(split_commas(""), vec!["".to_string()]);
    assert_eq!(split_commas(","), vec!["".to_string(), "".to_string()]);
    assert_eq!(split_commas("a,,b,"), vec!["a", "", "b", ""].iter().map(|s| s.to_string()).collect::<Vec<_>>());
    assert_eq!(split_commas("é,ß"), vec!["é".to_string(), "ß".to_string()]);
}
