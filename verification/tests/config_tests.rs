use netbird_exporter::config::{
    Config, DEFAULT_BATCH_SIZE, DEFAULT_CHECK_INTERVAL_SECS, DEFAULT_DB_PATH, DEFAULT_LOKI_URL,
};

fn some(text: &str) -> Option<String> {
    Some(text.to_string())
}

#[test]
fn defaults_when_nothing_is_set() {
    let config = Config::from_vars(None, None, None, None);
    assert_eq!(
        config,
        Config {
            loki_url: "http://loki:3100".to_string(),
            db_path: "/netbird-data/events.db".to_string(),
            check_interval_secs: 10,
            batch_size: 100,
        }
    );
    assert_eq!(DEFAULT_LOKI_URL, "http://loki:3100");
    assert_eq!(DEFAULT_DB_PATH, "/netbird-data/events.db");
    assert_eq!(DEFAULT_CHECK_INTERVAL_SECS, 10);
    assert_eq!(DEFAULT_BATCH_SIZE, 100);
}

#[test]
fn settings_are_taken_as_given() {
    let config = Config::from_vars(some("http://localhost:3100"), some("/tmp/e.db"), some("30"), some("500"));
    assert_eq!(config.loki_url, "http://localhost:3100");
    assert_eq!(config.db_path, "/tmp/e.db");
    assert_eq!(config.check_interval_secs, 30);
    assert_eq!(config.batch_size, 500);
}

#[test]
fn malformed_numbers_fall_back_to_defaults() {
    for bad in ["", "ten", "10s", " 10", "1.5", "-", "99999999999999999999999"] {
        let config = Config::from_vars(None, None, some(bad), some(bad));
        assert_eq!(config.check_interval_secs, 10, "interval of {:?}", bad);
        assert_eq!(config.batch_size, 100, "batch size of {:?}", bad);
    }
}

#[test]
fn negative_interval_is_malformed_negative_batch_size_is_not() {
    let config = Config::from_vars(None, None, some("-5"), some("-5"));
    assert_eq!(config.check_interval_secs, 10);
    assert_eq!(config.batch_size, -5);
}

#[test]
fn zero_and_signed_numbers_are_read() {
    let config = Config::from_vars(None, None, some("0"), some("+7"));
    assert_eq!(config.check_interval_secs, 0);
    assert_eq!(config.batch_size, 7);
}

#[test]
fn empty_texts_are_kept_for_url_and_path() {
    let config = Config::from_vars(some(""), some(""), None, None);
    assert_eq!(config.loki_url, "");
    assert_eq!(config.db_path, "");
}
