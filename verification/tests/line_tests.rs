use netbird_exporter::error::ExportError;
use netbird_exporter::event::Event;
use netbird_exporter::line::{frame_line, log_line, quote};

fn event(id: i64, activity: i32, account: Option<&str>, meta: Option<&str>) -> Event {
    Event {
        id,
        timestamp: "2024-01-15T10:30:00Z".to_string(),
        activity,
        initiator_id: Some("user-1".to_string()),
        target_id: None,
        account_id: account.map(|a| a.to_string()),
        meta: meta.map(|m| m.to_string()),
    }
}

fn reference_line(e: &Event, activity: &str) -> String {
    let mut object = serde_json::Map::new();
    object.insert("event_id".to_string(), serde_json::Value::from(e.id));
    object.insert("timestamp".to_string(), serde_json::Value::from(e.timestamp.clone()));
    object.insert("activity".to_string(), serde_json::Value::from(activity));
    object.insert("activity_code".to_string(), serde_json::Value::from(e.activity));
    object.insert(
        "initiator_id".to_string(),
        serde_json::Value::from(e.initiator_id.clone().unwrap_or_default()),
    );
    object.insert(
        "target_id".to_string(),
        serde_json::Value::from(e.target_id.clone().unwrap_or_default()),
    );
    object.insert(
        "account_id".to_string(),
        serde_json::Value::from(e.account_id.clone().unwrap_or_default()),
    );
    object.insert("meta".to_string(), serde_json::Value::from(e.meta.clone().unwrap_or_default()));
    serde_json::to_string(&serde_json::Value::Object(object)).unwrap()
}

#[test]
fn quote_writes_json_strings() {
    assert_eq!(quote(""), Ok("\"\"".to_string()));
    assert_eq!(quote("plain"), Ok("\"plain\"".to_string()));
    assert_eq!(quote("say \"hi\""), Ok("\"say \\\"hi\\\"\"".to_string()));
    assert_eq!(quote("a\\b"), Ok("\"a\\\\b\"".to_string()));
    assert_eq!(quote("line\nbreak\ttab"), Ok("\"line\\nbreak\\ttab\"".to_string()));
    assert_eq!(quote("\u{1}"), Ok("\"\\u0001\"".to_string()));
    assert_eq!(quote("é ✓"), Ok("\"é ✓\"".to_string()));
}

#[test]
fn quoted_text_reads_back() {
    let samples: Vec<&str> = vec!["", "a", "\"", "\\", "{\"k\": [1, 2]}", "\u{0}\u{1f}\u{7f}", "日本語"];
    for text in samples {
        let quoted = quote(text).unwrap();
        let back: String = serde_json::from_str(&quoted).unwrap();
        assert_eq!(back, text);
    }
}

#[test]
fn frame_line_puts_keys_in_order() {
    let line = frame_line(7, 4, "\"acc\"", "\"account_created\"", "\"ini\"", "\"m\"", "\"tgt\"", "\"ts\"");
    assert_eq!(
        line,
        "{\"account_id\":\"acc\",\"activity\":\"account_created\",\"activity_code\":4,\"event_id\":7,\"initiator_id\":\"ini\",\"meta\":\"m\",\"target_id\":\"tgt\",\"timestamp\":\"ts\"}"
    );
}

#[test]
fn frame_line_writes_negative_numbers() {
    let line = frame_line(-7, -4, "\"\"", "\"\"", "\"\"", "\"\"", "\"\"", "\"\"");
    assert_eq!(
        line,
        "{\"account_id\":\"\",\"activity\":\"\",\"activity_code\":-4,\"event_id\":-7,\"initiator_id\":\"\",\"meta\":\"\",\"target_id\":\"\",\"timestamp\":\"\"}"
    );
}

#[test]
fn log_line_exact_text() {
    let e = event(7, 4, Some("acc-1"), Some("{\"ip\":\"10.0.0.1\"}"));
    assert_eq!(
        log_line(&e),
        Ok("{\"account_id\":\"acc-1\",\"activity\":\"account_created\",\"activity_code\":4,\"event_id\":7,\"initiator_id\":\"user-1\",\"meta\":\"{\\\"ip\\\":\\\"10.0.0.1\\\"}\",\"target_id\":\"\",\"timestamp\":\"2024-01-15T10:30:00Z\"}".to_string())
    );
}

#[test]
fn log_line_absent_fields_are_empty_strings() {
    let e = Event {
        id: 1,
        timestamp: String::new(),
        activity: 999999,
        initiator_id: None,
        target_id: None,
        account_id: None,
        meta: None,
    };
    assert_eq!(
        log_line(&e),
        Ok("{\"account_id\":\"\",\"activity\":\"unknown_999999\",\"activity_code\":999999,\"event_id\":1,\"initiator_id\":\"\",\"meta\":\"\",\"target_id\":\"\",\"timestamp\":\"\"}".to_string())
    );
}

#[test]
fn log_line_agrees_with_serde_json() {
    let events = vec![
        event(1, 0, Some("acc"), None),
        event(2, 51, None, Some("not json at all {")),
        event(i64::MAX, i32::MAX, Some("quote\"and\\slash"), Some("line\nbreak")),
        event(i64::MIN, i32::MIN, Some("é"), Some("\u{7}")),
    ];
    for e in events.iter() {
        let activity = netbird_exporter::catalog::get_activity_name(e.activity);
        assert_eq!(log_line(e), Ok(reference_line(e, &activity)));
    }
}

#[test]
fn meta_that_is_not_json_is_passed_through() {
    let e = event(3, 2, Some("acc"), Some("<<not json>>"));
    let line = log_line(&e).unwrap();
    let parsed: serde_json::Value = serde_json::from_str(&line).unwrap();
    assert_eq!(parsed.get("meta").and_then(|m| m.as_str()), Some("<<not json>>"));
    assert_eq!(parsed.get("event_id").and_then(|m| m.as_i64()), Some(3));
    assert_eq!(parsed.get("activity").and_then(|m| m.as_str()), Some("user_joined"));
}

#[test]
fn serialization_failure_is_recoverable() {
    assert!(!ExportError::SerializationFailure.is_fatal());
}

#[test]
fn quote_succeeds_on_every_text() {
    let long = "x\"y\\z\n".repeat(2000);
    let samples: Vec<&str> = vec![
        "",
        "\u{0}",
        "\u{8}\u{c}\r\n\t",
        "\u{7f}\u{80}\u{2028}\u{2029}",
        "\u{10ffff}",
        "</script>",
        long.as_str(),
    ];
    for text in samples {
        let quoted = quote(text);
        assert!(quoted.is_ok());
        let back: String = serde_json::from_str(&quoted.unwrap()).unwrap();
        assert_eq!(back, text);
    }
}
