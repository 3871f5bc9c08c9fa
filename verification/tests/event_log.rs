use coordinator::{Event, EventError, EventLog, Timestamp, VerifierCapability};

fn event_at(id: &str, secs: i64) -> Event {
    Event {
        event_id: id.to_string(),
        timestamp: Timestamp::from_secs(secs),
        origin_id: "n1".to_string(),
        event_type: "join".to_string(),
        payload: serde_json::Value::Null,
        signature: "sig".to_string(),
    }
}

fn ids(events: &[Event]) -> Vec<String> {
    events.iter().map(|e| e.event_id.clone()).collect()
}

/// Holds no signature valid.
struct RejectAll;

impl VerifierCapability for RejectAll {
    fn accepts(&self, _event: &Event) -> bool {
        false
    }

    fn verify_signature(&self, _event: &Event) -> bool {
        false
    }
}

/// Holds a signature valid when it is the origin's identifier, reversed.
struct ReversedOrigin;

impl VerifierCapability for ReversedOrigin {
    fn accepts(&self, event: &Event) -> bool {
        event.signature.chars().rev().collect::<String>() == event.origin_id
    }

    fn verify_signature(&self, event: &Event) -> bool {
        event.signature.chars().rev().collect::<String>() == event.origin_id
    }
}

#[test]
fn new_log_is_empty() {
    let log = EventLog::new();
    assert_eq!(log.len(), 0);
    assert!(log.get_events_since(Timestamp::from_secs(i64::MIN)).is_empty());
}

#[test]
fn event_is_found_after_an_earlier_bound_only() {
    let mut log = EventLog::new();
    assert_eq!(log.add_event(event_at("e1", 100)), Ok(()));
    assert_eq!(log.get_events_since(Timestamp::from_secs(50)), vec![event_at("e1", 100)]);
    assert_eq!(log.get_events_since(Timestamp::from_secs(150)), Vec::<Event>::new());
}

#[test]
fn bound_is_exclusive() {
    let mut log = EventLog::new();
    log.add_event(event_at("e1", 100)).unwrap();
    assert!(log.get_events_since(Timestamp::from_secs(100)).is_empty());
    assert_eq!(ids(&log.get_events_since(Timestamp::new(99, 999_999_999).unwrap())), vec!["e1"]);
}

#[test]
fn bound_looks_at_nanoseconds() {
    let mut log = EventLog::new();
    let mut event = event_at("e1", 100);
    event.timestamp = Timestamp::new(100, 500).unwrap();
    log.add_event(event).unwrap();
    assert_eq!(ids(&log.get_events_since(Timestamp::new(100, 499).unwrap())), vec!["e1"]);
    assert!(log.get_events_since(Timestamp::new(100, 500).unwrap()).is_empty());
    assert!(log.get_events_since(Timestamp::new(100, 501).unwrap()).is_empty());
}

#[test]
fn answer_keeps_insertion_order_not_timestamp_order() {
    let mut log = EventLog::new();
    for (id, secs) in [("a", 300), ("b", 100), ("c", 200), ("d", 150), ("e", 400)] {
        assert_eq!(log.add_event(event_at(id, secs)), Ok(()));
    }
    assert_eq!(ids(&log.get_events_since(Timestamp::from_secs(150))), vec!["a", "c", "e"]);
    assert_eq!(ids(&log.get_events_since(Timestamp::from_secs(0))), vec!["a", "b", "c", "d", "e"]);
    assert_eq!(ids(&log.get_events_since(Timestamp::from_secs(399))), vec!["e"]);
    assert!(log.get_events_since(Timestamp::from_secs(400)).is_empty());
}

#[test]
fn duplicate_event_ids_are_kept_as_separate_entries() {
    let mut log = EventLog::new();
    log.add_event(event_at("same", 10)).unwrap();
    log.add_event(event_at("same", 10)).unwrap();
    assert_eq!(log.len(), 2);
    assert_eq!(
        log.get_events_since(Timestamp::from_secs(0)),
        vec![event_at("same", 10), event_at("same", 10)]
    );
}

#[test]
fn query_does_not_change_the_log() {
    let mut log = EventLog::new();
    log.add_event(event_at("e1", 100)).unwrap();
    let first = log.get_events_since(Timestamp::from_secs(0));
    let second = log.get_events_since(Timestamp::from_secs(0));
    assert_eq!(first, second);
    assert_eq!(log.len(), 1);
}

#[test]
fn every_field_comes_back_as_it_went_in() {
    let mut object = serde_json::Map::new();
    object.insert("level".to_string(), serde_json::Value::from(7));
    object.insert(
        "tags".to_string(),
        serde_json::Value::Array(vec![
            serde_json::Value::from("x"),
            serde_json::Value::Bool(true),
            serde_json::Value::Null,
        ]),
    );
    let event = Event {
        event_id: "e-42".to_string(),
        timestamp: Timestamp::new(1_700_000_000, 250).unwrap(),
        origin_id: "node-9".to_string(),
        event_type: "data-update".to_string(),
        payload: serde_json::Value::Object(object),
        signature: "c2lnbmVk".to_string(),
    };
    let mut log = EventLog::new();
    log.add_event(event.clone()).unwrap();
    let found = log.get_events_since(Timestamp::from_secs(0));
    assert_eq!(found.len(), 1);
    assert_eq!(found[0].event_id, "e-42");
    assert_eq!(found[0].timestamp, Timestamp::new(1_700_000_000, 250).unwrap());
    assert_eq!(found[0].origin_id, "node-9");
    assert_eq!(found[0].event_type, "data-update");
    assert_eq!(found[0].payload["level"], serde_json::Value::from(7));
    assert_eq!(found[0].payload["tags"][0], serde_json::Value::from("x"));
    assert_eq!(found[0].payload, event.payload);
    assert_eq!(found[0].signature, "c2lnbmVk");
}

#[test]
fn clone_of_an_event_equals_it() {
    let mut event = event_at("e1", 5);
    event.payload = serde_json::Value::Array(vec![serde_json::Value::from(1), serde_json::Value::from("two")]);
    let copy = event.clone();
    assert_eq!(copy, event);
    assert_eq!(copy.payload[1], serde_json::Value::from("two"));
}

#[test]
fn many_events_in_a_row_are_all_kept() {
    let mut log = EventLog::new();
    for i in 0..500 {
        assert_eq!(log.add_event(event_at(&format!("e{}", i), i)), Ok(()));
    }
    assert_eq!(log.len(), 500);
    let all = log.get_events_since(Timestamp::from_secs(-1));
    assert_eq!(all.len(), 500);
    for (i, event) in all.iter().enumerate() {
        assert_eq!(event.event_id, format!("e{}", i));
    }
    assert_eq!(log.get_events_since(Timestamp::from_secs(249)).len(), 250);
}

#[test]
fn refused_event_leaves_the_log_empty() {
    let mut log = EventLog::with_verifier(RejectAll);
    assert_eq!(log.add_event(event_at("e1", 100)), Err(EventError::InvalidSignature));
    assert_eq!(log.len(), 0);
    assert!(log.get_events_since(Timestamp::from_secs(0)).is_empty());
}

#[test]
fn refused_event_leaves_earlier_events_in_place() {
    let mut log = EventLog::with_verifier(ReversedOrigin);
    let mut good = event_at("good", 10);
    good.origin_id = "abc".to_string();
    good.signature = "cba".to_string();
    let mut bad = event_at("bad", 20);
    bad.origin_id = "abc".to_string();
    bad.signature = "abc".to_string();
    assert_eq!(log.add_event(good.clone()), Ok(()));
    let before = log.get_events_since(Timestamp::from_secs(0));
    assert_eq!(log.add_event(bad), Err(EventError::InvalidSignature));
    assert_eq!(log.len(), 1);
    assert_eq!(log.get_events_since(Timestamp::from_secs(0)), before);
    assert_eq!(before, vec![good.clone()]);
    good.event_id = "good-again".to_string();
    assert_eq!(log.add_event(good), Ok(()));
    assert_eq!(ids(&log.get_events_since(Timestamp::from_secs(0))), vec!["good", "good-again"]);
}

#[test]
fn refusal_is_not_remembered() {
    let mut log = EventLog::with_verifier(ReversedOrigin);
    let mut event = event_at("e1", 10);
    event.origin_id = "ab".to_string();
    event.signature = "ab".to_string();
    assert_eq!(log.add_event(event.clone()), Err(EventError::InvalidSignature));
    event.signature = "ba".to_string();
    assert_eq!(log.add_event(event), Ok(()));
    assert_eq!(log.len(), 1);
}

#[test]
fn invalid_signature_message() {
    assert_eq!(EventError::InvalidSignature.message(), "Invalid event signature");
}
