use metio::client::wire::encode_event;
use metio::types::{Event, EventType};

fn sample_type() -> EventType {
    EventType {
        group: "group".to_string(),
        name: "name".to_string(),
        version: "version".to_string(),
    }
}

#[test]
fn encode_event_exact_text() {
    let event = Event {
        event_id: "e1".to_string(),
        object_id: Some("o1".to_string()),
        event_type: EventType {
            group: "g".to_string(),
            name: "n".to_string(),
            version: "v".to_string(),
        },
        timestamp: 0,
        payload: vec![("k".to_string(), "v".to_string())],
    };
    let text = encode_event(&event).unwrap();
    assert_eq!(
        text,
        "{\"eventId\":\"e1\",\"objectId\":\"o1\",\"eventType\":\"g/n/v\",\
         \"timestamp\":\"1970-01-01T00:00:00+00:00\",\"payload\":{\"k\":\"v\"}}"
    );
}

#[test]
fn encode_event_null_object_id() {
    let event = Event {
        event_id: "e".to_string(),
        object_id: None,
        event_type: sample_type(),
        timestamp: 0,
        payload: Vec::new(),
    };
    let text = encode_event(&event).unwrap();
    assert!(text.contains("\"objectId\":null"));
    assert!(text.contains("\"payload\":{}"));
}

#[test]
fn encode_event_escapes_payload() {
    let event = Event {
        event_id: "quote\"backslash\\".to_string(),
        object_id: None,
        event_type: sample_type(),
        timestamp: 0,
        payload: vec![("line\nbreak".to_string(), "tab\tcr\r".to_string())],
    };
    let text = encode_event(&event).unwrap();
    assert!(text.contains("\"eventId\":\"quote\\\"backslash\\\\\""));
    assert!(text.contains("\"line\\nbreak\":\"tab\\tcr\\r\""));
}

#[test]
fn encode_event_escapes_control_chars() {
    let event = Event {
        event_id: "a\u{1}b".to_string(),
        object_id: None,
        event_type: sample_type(),
        timestamp: 0,
        payload: Vec::new(),
    };
    let text = encode_event(&event).unwrap();
    assert!(text.contains("\"eventId\":\"a\\u0001b\""));
}

#[test]
fn encode_event_timestamp_out_of_range() {
    let event = Event {
        event_id: "e".to_string(),
        object_id: None,
        event_type: sample_type(),
        timestamp: i64::MAX,
        payload: Vec::new(),
    };
    let r = encode_event(&event);
    assert_eq!(r.unwrap_err(), "timestamp out of range");
}

#[test]
fn test_serialization() {
    let event = Event {
        event_id: "event_id".to_string(),
        object_id: Some("object_id".to_string()),
        event_type: EventType {
            group: "group".to_string(),
            name: "name".to_string(),
            version: "version".to_string(),
        },
        timestamp: 1_700_000_000_000,
        payload: vec![("k\u{00e9}y".to_string(), "v\u{00e4}lue".to_string())],
    };

    let serialized = encode_event(&event).unwrap();
    let value: serde_json::Value = serde_json::from_str(&serialized).unwrap();

    assert_eq!(value["eventId"].as_str().unwrap(), event.event_id);
    assert_eq!(
        value["objectId"].as_str().map(str::to_string),
        event.object_id
    );
    let deserialized_type: EventType =
        EventType::from_str(value["eventType"].as_str().unwrap()).unwrap();
    assert_eq!(deserialized_type.group, event.event_type.group);
    assert_eq!(deserialized_type.name, event.event_type.name);
    assert_eq!(deserialized_type.version, event.event_type.version);
    let ts = chrono::DateTime::parse_from_rfc3339(value["timestamp"].as_str().unwrap()).unwrap();
    assert_eq!(ts.timestamp_millis(), event.timestamp);
    let payload = value["payload"].as_object().unwrap();
    assert_eq!(payload.len(), 1);
    assert_eq!(
        payload.get("k\u{00e9}y").unwrap().as_str().unwrap(),
        "v\u{00e4}lue"
    );
}
