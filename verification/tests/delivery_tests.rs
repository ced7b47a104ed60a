use netbird_exporter::delivery::{
    classify, endpoint_url, frame_entry, frame_labels, plan_push, push_body, push_timeout_secs,
    Delivery, PushStep, Transport, PUSH_PATH, PUSH_TIMEOUT_SECS, READY_PATH,
};
use netbird_exporter::error::ExportError;
use netbird_exporter::event::{LabelSet, Stream};

fn stream(account: &str, code: i32, values: Vec<(&str, &str)>) -> Stream {
    Stream {
        labels: LabelSet {
            account_id: account.to_string(),
            activity: netbird_exporter::catalog::get_activity_name(code),
            activity_code: code,
        },
        values: values.into_iter().map(|(t, l)| (t.to_string(), l.to_string())).collect(),
    }
}

#[test]
fn push_body_of_no_streams() {
    assert_eq!(push_body(&Vec::new()), Ok("{\"streams\":[]}".to_string()));
}

#[test]
fn push_body_exact_text() {
    let streams = vec![
        stream("acc-1", 4, vec![("100", "{\"a\":1}"), ("200", "second")]),
        stream("acc-2", 999999, vec![("300", "third")]),
    ];
    assert_eq!(
        push_body(&streams),
        Ok("{\"streams\":[{\"stream\":{\"account_id\":\"acc-1\",\"activity\":\"account_created\",\"activity_code\":\"4\",\"job\":\"netbird-events\"},\"values\":[[\"100\",\"{\\\"a\\\":1}\"],[\"200\",\"second\"]]},{\"stream\":{\"account_id\":\"acc-2\",\"activity\":\"unknown_999999\",\"activity_code\":\"999999\",\"job\":\"netbird-events\"},\"values\":[[\"300\",\"third\"]]}]}".to_string())
    );
}

#[test]
fn push_body_of_stream_without_values() {
    let streams = vec![stream("a", 0, vec![])];
    assert_eq!(
        push_body(&streams),
        Ok("{\"streams\":[{\"stream\":{\"account_id\":\"a\",\"activity\":\"peer_added_by_user\",\"activity_code\":\"0\",\"job\":\"netbird-events\"},\"values\":[]}]}".to_string())
    );
}

#[test]
fn push_body_is_the_backend_document() {
    let streams = vec![
        stream("acc \"one\"", 4, vec![("100", "line\nwith break"), ("200", "b")]),
        stream("acc-2", -3, vec![("300", "c")]),
    ];
    let body = push_body(&streams).unwrap();
    let parsed: serde_json::Value = serde_json::from_str(&body).unwrap();
    let listed = parsed.get("streams").and_then(|s| s.as_array()).unwrap();
    assert_eq!(listed.len(), 2);
    let first = &listed[0];
    let labels = first.get("stream").and_then(|s| s.as_object()).unwrap();
    assert_eq!(labels.len(), 4);
    assert_eq!(labels.get("job").and_then(|v| v.as_str()), Some("netbird-events"));
    assert_eq!(labels.get("account_id").and_then(|v| v.as_str()), Some("acc \"one\""));
    assert_eq!(labels.get("activity").and_then(|v| v.as_str()), Some("account_created"));
    assert_eq!(labels.get("activity_code").and_then(|v| v.as_str()), Some("4"));
    let values = first.get("values").and_then(|s| s.as_array()).unwrap();
    assert_eq!(values.len(), 2);
    assert_eq!(values[0].get(0).and_then(|v| v.as_str()), Some("100"));
    assert_eq!(values[0].get(1).and_then(|v| v.as_str()), Some("line\nwith break"));
    let second = listed[1].get("stream").and_then(|s| s.as_object()).unwrap();
    assert_eq!(second.get("activity_code").and_then(|v| v.as_str()), Some("-3"));
    assert_eq!(second.get("activity").and_then(|v| v.as_str()), Some("unknown_-3"));
}

#[test]
fn empty_stream_set_is_never_sent() {
    assert_eq!(plan_push(&Vec::new()), Ok(PushStep::Skip));
}

#[test]
fn stream_set_is_sent_in_one_request() {
    let streams = vec![stream("a", 1, vec![("1", "x")])];
    let body = push_body(&streams).unwrap();
    assert_eq!(plan_push(&streams), Ok(PushStep::Send { body }));
}

#[test]
fn success_class_is_delivered() {
    for status in [200u16, 201, 204, 299] {
        let outcome = Transport::Answered { status, body: "ok".to_string() };
        assert_eq!(classify(outcome), Delivery::Delivered);
    }
}

#[test]
fn other_statuses_are_rejected_with_detail() {
    for status in [0u16, 100, 199, 300, 301, 400, 404, 429, 500, 503, 65535] {
        let outcome = Transport::Answered { status, body: "entry too far behind".to_string() };
        assert_eq!(
            classify(outcome),
            Delivery::Rejected { status, body: "entry too far behind".to_string() }
        );
    }
}

#[test]
fn no_answer_is_unreachable() {
    let outcome = Transport::Failed { detail: "connection refused".to_string() };
    assert_eq!(classify(outcome), Delivery::Unreachable { detail: "connection refused".to_string() });
}

#[test]
fn rejected_and_unreachable_both_fail() {
    assert!(!Delivery::Delivered.is_failure());
    assert!(Delivery::Rejected { status: 500, body: String::new() }.is_failure());
    assert!(Delivery::Unreachable { detail: String::new() }.is_failure());
}

#[test]
fn delivery_as_result_keeps_the_detail() {
    assert_eq!(Delivery::Delivered.into_result(), Ok(()));
    assert_eq!(
        Delivery::Rejected { status: 400, body: "bad".to_string() }.into_result(),
        Err(ExportError::DeliveryRejected { status: 400, body: "bad".to_string() })
    );
    assert_eq!(
        Delivery::Unreachable { detail: "timeout".to_string() }.into_result(),
        Err(ExportError::DeliveryUnreachable { detail: "timeout".to_string() })
    );
}

#[test]
fn endpoint_urls() {
    assert_eq!(endpoint_url("http://loki:3100", PUSH_PATH), "http://loki:3100/loki/api/v1/push");
    assert_eq!(endpoint_url("http://loki:3100", READY_PATH), "http://loki:3100/ready");
    assert_eq!(endpoint_url("", ""), "");
    assert_eq!(PUSH_TIMEOUT_SECS, 10);
}

#[test]
fn error_kinds_fatal_or_recoverable() {
    assert!(ExportError::StartupUnreachable.is_fatal());
    assert!(ExportError::SourceOpenFailure.is_fatal());
    assert!(!ExportError::SourceReadFailure.is_fatal());
    assert!(!ExportError::SerializationFailure.is_fatal());
    assert!(!ExportError::DeliveryRejected { status: 500, body: String::new() }.is_fatal());
    assert!(!ExportError::DeliveryUnreachable { detail: String::new() }.is_fatal());
}

#[test]
fn frames_take_quoted_texts_as_they_are() {
    let mut out = String::from("x");
    frame_entry(&mut out, "\"1\"", "\"line\"");
    assert_eq!(out, "x[\"1\",\"line\"]");
    let mut labels = String::new();
    frame_labels(&mut labels, "\"a\"", "\"b\"", "\"4\"", "\"j\"");
    assert_eq!(
        labels,
        "{\"account_id\":\"a\",\"activity\":\"b\",\"activity_code\":\"4\",\"job\":\"j\"}"
    );
}

#[test]
fn push_timeout_is_shorter_than_the_poll_interval() {
    assert_eq!(push_timeout_secs(10), 9);
    assert_eq!(push_timeout_secs(11), 10);
    assert_eq!(push_timeout_secs(30), 10);
    assert_eq!(push_timeout_secs(u64::MAX), 10);
    assert_eq!(push_timeout_secs(5), 4);
    assert_eq!(push_timeout_secs(2), 1);
    for interval in 2..=100u64 {
        let timeout = push_timeout_secs(interval);
        assert!(timeout >= 1 && timeout < interval && timeout <= PUSH_TIMEOUT_SECS);
    }
}

#[test]
fn push_timeout_under_the_shortest_intervals_is_one_second() {
    assert_eq!(push_timeout_secs(1), 1);
    assert_eq!(push_timeout_secs(0), 1);
}
