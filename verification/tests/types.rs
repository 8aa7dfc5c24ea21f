use metio::types::{Event, EventType};

fn sample_type() -> EventType {
    EventType {
        group: "group".to_string(),
        name: "name".to_string(),
        version: "version".to_string(),
    }
}

#[test]
fn test_event_type() {
    let event_type = sample_type();

    assert_eq!(event_type.group, "group");
    assert_eq!(event_type.name, "name");
    assert_eq!(event_type.version, "version");
}

#[test]
fn test_event() {
    let event = Event {
        event_id: "event_id".to_string(),
        object_id: Some("object_id".to_string()),
        event_type: sample_type(),
        timestamp: 1_700_000_000_000,
        payload: Vec::new(),
    };

    assert_eq!(event.event_id, "event_id");
    assert_eq!(event.object_id, Some("object_id".to_string()));
    assert_eq!(event.event_type.group, "group");
    assert_eq!(event.event_type.name, "name");
    assert_eq!(event.event_type.version, "version");
}

#[test]
fn test_event_type_from_str() {
    let event_type = EventType::from_str("group/name/version").unwrap();

    assert_eq!(event_type.group, "group");
    assert_eq!(event_type.name, "name");
    assert_eq!(event_type.version, "version");
}

#[test]
fn test_event_type_from_str_invalid() {
    let event_type = EventType::from_str("group/name");

    assert!(event_type.is_err());
}

#[test]
fn event_type_to_text() {
    assert_eq!(sample_type().to_text(), "group/name/version");
}

#[test]
fn event_type_round_trip() {
    let t = EventType {
        group: "metio.bagaluten.io".to_string(),
        name: "test-event".to_string(),
        version: "v1".to_string(),
    };
    let parsed = EventType::from_str(&t.to_text()).unwrap();
    assert_eq!(parsed, t);
}

#[test]
fn event_type_empty_segments_accepted() {
    let t = EventType::from_str("//").unwrap();
    assert_eq!(t.group, "");
    assert_eq!(t.name, "");
    assert_eq!(t.version, "");
}

#[test]
fn event_type_four_segments_rejected() {
    let r = EventType::from_str("a/b/c/d");
    assert!(r.is_err());
    assert_eq!(r.unwrap_err(), "invalid event type: a/b/c/d");
}

#[test]
fn event_type_empty_input_rejected() {
    assert!(EventType::from_str("").is_err());
}

#[test]
fn event_duplicate_is_equal() {
    let event = Event {
        event_id: "id".to_string(),
        object_id: None,
        event_type: sample_type(),
        timestamp: 42,
        payload: vec![("k".to_string(), "v".to_string())],
    };
    assert_eq!(event.duplicate(), event);
}
