use klipper_timeout::cli::{Cli, log_level};
use klipper_timeout::config::{Config, ConfigError, FileConfig};

fn empty_cli() -> Cli {
    Cli {
        item_expiry_seconds: None,
        update_interval_seconds: None,
        never_expire_regex: Vec::new(),
        exclude_regex: Vec::new(),
        verbose: 0,
    }
}

fn empty_file() -> FileConfig {
    FileConfig {
        item_expiry_seconds: None,
        update_interval_seconds: None,
        never_expire_regex: Vec::new(),
        exclude_regex: Vec::new(),
    }
}

#[test]
fn defaults_when_nothing_is_set() {
    let config = Config::from_sources(None, &empty_cli()).unwrap();
    assert_eq!(config.expiry_seconds(), 600);
    assert_eq!(config.resync_seconds(), 30);
}

#[test]
fn cli_values_win_over_file_values() {
    let mut cli = empty_cli();
    cli.item_expiry_seconds = Some(5);
    cli.update_interval_seconds = Some(7);
    let mut file = empty_file();
    file.item_expiry_seconds = Some(100);
    file.update_interval_seconds = Some(200);
    let config = Config::from_sources(Some(file), &cli).unwrap();
    assert_eq!(config.expiry_seconds(), 5);
    assert_eq!(config.resync_seconds(), 7);
}

#[test]
fn file_values_fill_cli_gaps() {
    let mut file = empty_file();
    file.item_expiry_seconds = Some(100);
    let config = Config::from_sources(Some(file), &empty_cli()).unwrap();
    assert_eq!(config.expiry_seconds(), 100);
    assert_eq!(config.resync_seconds(), 30);
}

#[test]
fn zero_expiry_is_rejected() {
    let mut cli = empty_cli();
    cli.item_expiry_seconds = Some(0);
    let err = Config::from_sources(None, &cli).unwrap_err();
    assert!(matches!(err, ConfigError::ZeroExpiry));
    assert_eq!(err.message(), "expiry_seconds must be greater than zero");
}

#[test]
fn zero_resync_is_rejected() {
    let mut cli = empty_cli();
    cli.update_interval_seconds = Some(0);
    let err = Config::from_sources(None, &cli).unwrap_err();
    assert!(matches!(err, ConfigError::ZeroResync));
    assert_eq!(err.message(), "resync_interval_seconds must be greater than zero");
}

#[test]
fn malformed_always_remove_pattern_is_rejected() {
    let mut cli = empty_cli();
    cli.exclude_regex = vec!["ok".to_string(), "foo(".to_string()];
    let err = Config::from_sources(None, &cli).unwrap_err();
    match err {
        ConfigError::InvalidAlwaysRemovePattern(p) => assert_eq!(p, "foo("),
        _ => panic!("expected an always-remove pattern error"),
    }
}

#[test]
fn malformed_never_remove_pattern_is_rejected() {
    let mut file = empty_file();
    file.never_expire_regex = vec!["[".to_string()];
    let err = Config::from_sources(Some(file), &empty_cli()).unwrap_err();
    match err {
        ConfigError::InvalidNeverRemovePattern(p) => {
            assert_eq!(p, "[");
        },
        _ => panic!("expected a never-remove pattern error"),
    }
}

#[test]
fn pattern_errors_take_precedence_over_zero_durations() {
    let mut cli = empty_cli();
    cli.item_expiry_seconds = Some(0);
    cli.exclude_regex = vec!["(".to_string()];
    let err = Config::from_sources(None, &cli).unwrap_err();
    assert!(matches!(err, ConfigError::InvalidAlwaysRemovePattern(_)));
}

#[test]
fn always_remove_matches_by_regex() {
    let mut cli = empty_cli();
    cli.exclude_regex = vec!["^secret".to_string()];
    let config = Config::from_sources(None, &cli).unwrap();
    assert!(config.should_always_remove("secret token"));
    assert!(!config.should_always_remove("a secret inside"));
    assert!(!config.should_always_remove("plain text"));
}

#[test]
fn never_remove_matches_by_regex() {
    let mut cli = empty_cli();
    cli.never_expire_regex = vec!["keep".to_string(), "^pin:".to_string()];
    let config = Config::from_sources(None, &cli).unwrap();
    assert!(config.should_never_remove("please keep this"));
    assert!(config.should_never_remove("pin: 1234"));
    assert!(!config.should_never_remove("ephemeral"));
}

#[test]
fn file_patterns_follow_cli_patterns() {
    let mut cli = empty_cli();
    cli.exclude_regex = vec!["^a$".to_string()];
    let mut file = empty_file();
    file.exclude_regex = vec!["^b$".to_string()];
    let config = Config::from_sources(Some(file), &cli).unwrap();
    assert!(config.should_always_remove("a"));
    assert!(config.should_always_remove("b"));
    assert!(!config.should_always_remove("c"));
}

#[test]
fn verbosity_reports_the_flag_count() {
    let mut cli = empty_cli();
    cli.verbose = 2;
    assert_eq!(cli.verbosity(), 2);
}

#[test]
fn log_level_saturates_at_trace() {
    assert_eq!(log_level(0), "warn");
    assert_eq!(log_level(1), "info");
    assert_eq!(log_level(2), "debug");
    assert_eq!(log_level(3), "trace");
    assert_eq!(log_level(9), "trace");
}
