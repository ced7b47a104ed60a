use netbird_exporter::event::{
    field_or, Event, LabelSet, Stamped, Stream, JOB, UNKNOWN_ACCOUNT,
};
use netbird_exporter::grouper::{add_entry, find_stream, group, group_stamped, stamp_events};
use netbird_exporter::line::log_line;

fn event(id: i64, activity: i32, account: Option<&str>) -> Event {
    Event {
        id,
        timestamp: "2024-01-15T10:30:00Z".to_string(),
        activity,
        initiator_id: None,
        target_id: None,
        account_id: account.map(|a| a.to_string()),
        meta: None,
    }
}

fn labels(account: &str, activity: &str, code: i32) -> LabelSet {
    LabelSet { account_id: account.to_string(), activity: activity.to_string(), activity_code: code }
}

#[test]
fn label_set_of_event() {
    let l = LabelSet::of_event(&event(1, 4, Some("acc-1")));
    assert_eq!(l, labels("acc-1", "account_created", 4));
    let unknown = LabelSet::of_event(&event(2, 999999, None));
    assert_eq!(unknown, labels("unknown", "unknown_999999", 999999));
    assert_eq!(JOB, "netbird-events");
    assert_eq!(UNKNOWN_ACCOUNT, "unknown");
}

#[test]
fn label_set_ignores_id_timestamp_and_meta() {
    let mut a = event(1, 4, Some("acc"));
    let mut b = event(900, 4, Some("acc"));
    a.meta = Some("x".to_string());
    b.timestamp = "whenever".to_string();
    b.initiator_id = Some("someone".to_string());
    assert!(LabelSet::of_event(&a).same_labels(&LabelSet::of_event(&b)));
}

#[test]
fn same_labels_compares_every_label() {
    let base = labels("a", "n", 1);
    assert!(base.same_labels(&labels("a", "n", 1)));
    assert!(!base.same_labels(&labels("b", "n", 1)));
    assert!(!base.same_labels(&labels("a", "m", 1)));
    assert!(!base.same_labels(&labels("a", "n", 2)));
}

#[test]
fn add_entry_appends_or_creates() {
    let mut streams: Vec<Stream> = Vec::new();
    add_entry(&mut streams, labels("a", "n", 1), "1".to_string(), "x".to_string());
    add_entry(&mut streams, labels("b", "n", 1), "2".to_string(), "y".to_string());
    add_entry(&mut streams, labels("a", "n", 1), "3".to_string(), "z".to_string());
    assert_eq!(streams.len(), 2);
    assert_eq!(streams[0].labels, labels("a", "n", 1));
    assert_eq!(
        streams[0].values,
        vec![("1".to_string(), "x".to_string()), ("3".to_string(), "z".to_string())]
    );
    assert_eq!(streams[1].values, vec![("2".to_string(), "y".to_string())]);
    assert_eq!(find_stream(&streams, &labels("b", "n", 1)), Some(1));
    assert_eq!(find_stream(&streams, &labels("c", "n", 1)), None);
}

#[test]
fn empty_batch_groups_to_nothing() {
    assert_eq!(group(&Vec::new()), Ok(Vec::new()));
}

#[test]
fn group_partitions_by_account_and_activity() {
    let events = vec![
        event(1, 4, Some("acc-1")),
        event(2, 4, Some("acc-2")),
        event(3, 5, Some("acc-1")),
        event(4, 4, Some("acc-1")),
        event(5, 4, Some("acc-2")),
    ];
    let streams = group(&events).unwrap();
    assert_eq!(streams.len(), 3);
    assert_eq!(streams[0].labels, labels("acc-1", "account_created", 4));
    assert_eq!(streams[1].labels, labels("acc-2", "account_created", 4));
    assert_eq!(streams[2].labels, labels("acc-1", "peer_removed_by_user", 5));
    let stamp = "1705314600000000000".to_string();
    assert_eq!(
        streams[0].values,
        vec![
            (stamp.clone(), log_line(&events[0]).unwrap()),
            (stamp.clone(), log_line(&events[3]).unwrap()),
        ]
    );
    assert_eq!(
        streams[1].values,
        vec![
            (stamp.clone(), log_line(&events[1]).unwrap()),
            (stamp.clone(), log_line(&events[4]).unwrap()),
        ]
    );
    assert_eq!(streams[2].values, vec![(stamp.clone(), log_line(&events[2]).unwrap())]);
}

#[test]
fn group_keeps_every_event_once() {
    let events: Vec<Event> = (1..=40).map(|id| event(id, (id % 7) as i32, if id % 3 == 0 { None } else { Some("acc") })).collect();
    let streams = group(&events).unwrap();
    let total: usize = streams.iter().map(|s| s.values.len()).sum();
    assert_eq!(total, events.len());
    for (i, s) in streams.iter().enumerate() {
        assert!(!s.values.is_empty());
        for other in streams.iter().skip(i + 1) {
            assert_ne!(s.labels, other.labels);
        }
    }
}

#[test]
fn group_order_within_stream_follows_input() {
    let events: Vec<Event> = vec![
        event(10, 1, Some("a")),
        event(11, 2, Some("a")),
        event(12, 1, Some("a")),
        event(13, 2, Some("a")),
        event(14, 1, Some("a")),
    ];
    let streams = group(&events).unwrap();
    let ids_of = |stream: &Stream| -> Vec<i64> {
        stream
            .values
            .iter()
            .map(|(_, line)| {
                let parsed: serde_json::Value = serde_json::from_str(line).unwrap();
                parsed.get("event_id").and_then(|v| v.as_i64()).unwrap()
            })
            .collect()
    };
    assert_eq!(ids_of(&streams[0]), vec![10, 12, 14]);
    assert_eq!(ids_of(&streams[1]), vec![11, 13]);
}

#[test]
fn missing_account_and_the_word_unknown_share_a_stream() {
    let events = vec![event(1, 4, None), event(2, 4, Some("unknown"))];
    let streams = group(&events).unwrap();
    assert_eq!(streams.len(), 1);
    assert_eq!(streams[0].values.len(), 2);
}

#[test]
fn grouping_is_deterministic() {
    let events = vec![
        event(1, 4, Some("acc-1")),
        event(2, 999999, None),
        event(3, 4, Some("acc-1")),
    ];
    let first = group(&events).unwrap();
    let second = group(&events).unwrap();
    let third = group(&events.clone()).unwrap();
    assert_eq!(first, second);
    assert_eq!(first, third);
}

#[test]
fn unknown_activity_does_not_block_grouping() {
    let events = vec![event(1, 999999, Some("acc")), event(2, -5, Some("acc"))];
    let streams = group(&events).unwrap();
    assert_eq!(streams.len(), 2);
    assert_eq!(streams[0].labels.activity, "unknown_999999");
    assert_eq!(streams[1].labels.activity, "unknown_-5");
}

#[test]
fn stamp_events_normalizes_in_order() {
    let mut events = vec![event(1, 4, None), event(2, 4, None), event(3, 4, None)];
    events[1].timestamp = "1970-01-01T00:00:01Z".to_string();
    events[2].timestamp = "garbage".to_string();
    let batch = stamp_events(&events);
    assert_eq!(batch.len(), 3);
    assert_eq!(batch[0], Stamped { event: &events[0], stamp: "1705314600000000000".to_string() });
    assert_eq!(batch[1], Stamped { event: &events[1], stamp: "1000000000".to_string() });
    assert_eq!(batch[2].event, &events[2]);
    assert!(batch[2].stamp.parse::<i64>().unwrap() > 1705314600000000000);
}

#[test]
fn group_stamped_uses_the_given_stamps() {
    let events = vec![event(1, 4, Some("a")), event(2, 4, Some("a"))];
    let batch = vec![
        Stamped { event: &events[0], stamp: "111".to_string() },
        Stamped { event: &events[1], stamp: "222".to_string() },
    ];
    let streams = group_stamped(&batch).unwrap();
    assert_eq!(streams.len(), 1);
    assert_eq!(
        streams[0].values,
        vec![
            ("111".to_string(), log_line(&events[0]).unwrap()),
            ("222".to_string(), log_line(&events[1]).unwrap()),
        ]
    );
}

#[test]
fn unreadable_timestamp_falls_back_inside_group() {
    let mut e = event(1, 4, Some("a"));
    e.timestamp = "not-a-date".to_string();
    let streams = group(&vec![e]).unwrap();
    let stamp = &streams[0].values[0].0;
    assert!(!stamp.is_empty());
    assert!(stamp.chars().all(|c| c.is_ascii_digit()));
}

#[test]
fn absent_field_reads_as_the_given_text() {
    assert_eq!(field_or(&None, "N/A"), "N/A");
    assert_eq!(field_or(&Some("x".to_string()), "N/A"), "x");
    assert_eq!(field_or(&Some(String::new()), "N/A"), "");
}
