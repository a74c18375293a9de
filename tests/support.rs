use server_father::config::{Config, ConfigError, DEFAULT_CHECK_INTERVAL_SECS};
use server_father::schedule::{LoopState, Registry, StartOutcome};
use server_father::text::parse_unsigned;

#[test]
fn missing_database_url_is_rejected() {
    let r = Config::from_values(None, Some("60".to_string()));
    assert!(matches!(r, Err(ConfigError::MissingDatabaseUrl)));
    assert_eq!(ConfigError::MissingDatabaseUrl.message(), "DATABASE_URL not set");
}

#[test]
fn interval_defaults_to_five_minutes() {
    let c = Config::from_values(Some("postgres://x".to_string()), None).unwrap();
    assert_eq!(c.check_interval, DEFAULT_CHECK_INTERVAL_SECS);
    assert_eq!(c.check_interval, 300);
    assert_eq!(c.database_url, "postgres://x");
}

#[test]
fn interval_is_read_in_seconds() {
    let c = Config::from_values(Some("u".to_string()), Some("+60".to_string())).unwrap();
    assert_eq!(c.check_interval, 60);
}

#[test]
fn invalid_interval_is_rejected() {
    for text in ["", "+", "abc", "-5", "1.5", " 5", "18446744073709551616", "0", "+00"] {
        let r = Config::from_values(Some("u".to_string()), Some(text.to_string()));
        assert!(matches!(r, Err(ConfigError::InvalidCheckInterval)), "{}", text);
    }
    assert_eq!(ConfigError::InvalidCheckInterval.message(), "Invalid CHECK_INTERVAL");
}

#[test]
fn unsigned_parse_matches_std() {
    for text in ["0", "007", "+12", "18446744073709551615", "18446744073709551616", "", "+", "x1", "1x", "٣"] {
        assert_eq!(parse_unsigned(text), text.parse::<u64>().ok(), "{}", text);
    }
}

#[test]
fn second_start_is_detected() {
    let mut r = Registry::new();
    assert_eq!(r.state(42), LoopState::Idle);
    assert_eq!(r.start(42), StartOutcome::Started);
    assert_eq!(r.state(42), LoopState::Running);
    assert_eq!(r.start(7), StartOutcome::Started);
    assert_eq!(r.start(42), StartOutcome::AlreadyRunning);
    assert_eq!(r.loops_for(42), 2);
    assert_eq!(r.loops_for(7), 1);
    assert_eq!(r.loops_for(8), 0);
}
