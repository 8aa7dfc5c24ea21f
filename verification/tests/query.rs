use metio::client::sqlite::{
    build_query, create_table_sql, decode_row, decode_rows, delete_events_sql, insert_event_sql,
    testdata_row, EventRow, QueryParam, SqliteClientConfig, TESTDATA_EVENT_COUNT,
};
use metio::client::EventFilter;
use metio::types::EventType;

fn sample_type() -> EventType {
    EventType {
        group: "metio.bagaluten.io".to_string(),
        name: "test-event".to_string(),
        version: "v1".to_string(),
    }
}

fn texts(params: &[QueryParam]) -> Vec<String> {
    params
        .iter()
        .map(|p| match p {
            QueryParam::Text(s) => s.clone(),
            QueryParam::Count(n) => format!("LIMIT:{}", n),
        })
        .collect()
}

#[test]
fn default_config() {
    let congig = SqliteClientConfig::default();
    assert_eq!(congig.path, ":memory:".to_string());
    assert_eq!(congig.create_testdata, false);
}

#[test]
fn query_without_filter() {
    let q = build_query(10, EventFilter::All);
    assert_eq!(q.text, "SELECT * FROM event  LIMIT ?");
    assert_eq!(texts(&q.params), vec!["LIMIT:10"]);
}

#[test]
fn query_by_type_binds_canonical_text() {
    let q = build_query(10, EventFilter::ByType(sample_type()));
    assert_eq!(q.text, "SELECT * FROM event WHERE event_type = ? LIMIT ?");
    assert_eq!(
        texts(&q.params),
        vec!["metio.bagaluten.io/test-event/v1", "LIMIT:10"]
    );
}

#[test]
fn query_by_object() {
    let q = build_query(5, EventFilter::ByObject("obj-1".to_string()));
    assert_eq!(q.text, "SELECT * FROM event WHERE objectId = ? LIMIT ?");
    assert_eq!(texts(&q.params), vec!["obj-1", "LIMIT:5"]);
}

#[test]
fn query_by_id() {
    let q = build_query(1, EventFilter::ById("event-7".to_string()));
    assert_eq!(q.text, "SELECT * FROM event WHERE id = ? LIMIT ?");
    assert_eq!(texts(&q.params), vec!["event-7", "LIMIT:1"]);
}

#[test]
fn query_compilation_repeatable() {
    let a = build_query(10, EventFilter::ByType(sample_type()));
    let b = build_query(10, EventFilter::ByType(sample_type()));
    assert_eq!(a.text, b.text);
    assert_eq!(texts(&a.params), texts(&b.params));
}

#[test]
fn decode_row_valid() {
    let event = decode_row(EventRow {
        id: "event-1".to_string(),
        object_id: Some("testObject".to_string()),
        event_type: "metio.bagaluten.io/test-event/v1".to_string(),
        timestamp: "2012-12-12T12:12:12Z".to_string(),
        payload: "{\"test\": \"test\"}".to_string(),
    })
    .unwrap();
    assert_eq!(event.event_id, "event-1");
    assert_eq!(event.object_id, Some("testObject".to_string()));
    assert_eq!(event.event_type, sample_type());
    assert_eq!(event.timestamp, 1_355_314_332_000);
    assert_eq!(
        event.payload,
        vec![("test".to_string(), "test".to_string())]
    );
}

#[test]
fn decode_row_null_object() {
    let event = decode_row(EventRow {
        id: "event-2".to_string(),
        object_id: None,
        event_type: "a/b/c".to_string(),
        timestamp: "1970-01-01T00:00:00+00:00".to_string(),
        payload: "{}".to_string(),
    })
    .unwrap();
    assert_eq!(event.object_id, None);
    assert_eq!(event.timestamp, 0);
    assert!(event.payload.is_empty());
}

#[test]
fn decode_row_bad_type() {
    let r = decode_row(EventRow {
        id: "event-3".to_string(),
        object_id: None,
        event_type: "not-a-type".to_string(),
        timestamp: "1970-01-01T00:00:00Z".to_string(),
        payload: "{}".to_string(),
    });
    assert_eq!(r.unwrap_err(), "invalid event_type in row event-3");
}

#[test]
fn decode_row_bad_timestamp() {
    let r = decode_row(EventRow {
        id: "event-4".to_string(),
        object_id: None,
        event_type: "a/b/c".to_string(),
        timestamp: "yesterday".to_string(),
        payload: "{}".to_string(),
    });
    assert_eq!(r.unwrap_err(), "invalid timestamp in row event-4");
}

#[test]
fn decode_row_bad_payload() {
    let r = decode_row(EventRow {
        id: "event-5".to_string(),
        object_id: None,
        event_type: "a/b/c".to_string(),
        timestamp: "1970-01-01T00:00:00Z".to_string(),
        payload: "[1, 2]".to_string(),
    });
    assert_eq!(r.unwrap_err(), "invalid payload in row event-5");
}

#[test]
fn decode_row_payload_contents() {
    let event = decode_row(EventRow {
        id: "event-6".to_string(),
        object_id: None,
        event_type: "a/b/c".to_string(),
        timestamp: "1970-01-01T00:00:00Z".to_string(),
        payload: "{\"x\": \"1\", \"y\": \"2\"}".to_string(),
    })
    .unwrap();
    let mut pairs = event.payload.clone();
    pairs.sort();
    assert_eq!(
        pairs,
        vec![
            ("x".to_string(), "1".to_string()),
            ("y".to_string(), "2".to_string()),
        ]
    );
}

#[test]
fn fixed_statements() {
    assert!(create_table_sql().starts_with("CREATE TABLE IF NOT EXISTS event ("));
    assert!(create_table_sql().contains("id TEXT PRIMARY KEY"));
    assert!(create_table_sql().contains("payload JSON NOT NULL"));
    assert_eq!(delete_events_sql(), "DELETE FROM event;");
    assert_eq!(
        insert_event_sql(),
        "INSERT INTO event (id, event_type, objectId, timestamp, payload) VALUES (?, ?, ?, ?, ?)"
    );
}

#[test]
fn testdata_row_values() {
    let row = testdata_row(42, "2024-01-01T00:00:00+00:00".to_string());
    assert_eq!(
        texts(&row),
        vec![
            "event-42",
            "metio.bagaluten.io/test-event/v1",
            "testObject",
            "2024-01-01T00:00:00+00:00",
            "{\"test\": \"test\"}",
        ]
    );
}

#[test]
fn timestamp_text_round_trip() {
    // the rendered wire timestamp parses back to the same instant
    let event = metio::client::wire::encode_event(&metio::types::Event {
        event_id: "e".to_string(),
        object_id: None,
        event_type: sample_type(),
        timestamp: 947_638_923_004,
        payload: Vec::new(),
    })
    .unwrap();
    let value: serde_json::Value = serde_json::from_str(&event).unwrap();
    let rendered = value["timestamp"].as_str().unwrap();
    assert_eq!(rendered, "2000-01-12T01:02:03.004+00:00");
    let reparsed = decode_row(EventRow {
        id: "e".to_string(),
        object_id: None,
        event_type: "a/b/c".to_string(),
        timestamp: rendered.to_string(),
        payload: "{}".to_string(),
    })
    .unwrap();
    assert_eq!(reparsed.timestamp, 947_638_923_004);
}

fn good_row(id: &str) -> EventRow {
    EventRow {
        id: id.to_string(),
        object_id: None,
        event_type: "a/b/c".to_string(),
        timestamp: "1970-01-01T00:00:00Z".to_string(),
        payload: "{}".to_string(),
    }
}

#[test]
fn decode_rows_in_order() {
    let events = decode_rows(vec![good_row("r1"), good_row("r2"), good_row("r3")]).unwrap();
    assert_eq!(events.len(), 3);
    assert_eq!(events[0].event_id, "r1");
    assert_eq!(events[1].event_id, "r2");
    assert_eq!(events[2].event_id, "r3");
}

#[test]
fn decode_rows_empty() {
    let events = decode_rows(Vec::new()).unwrap();
    assert!(events.is_empty());
}

#[test]
fn decode_rows_fails_on_first_bad_row() {
    let mut second = good_row("r2");
    second.timestamp = "not-a-time".to_string();
    let mut third = good_row("r3");
    third.event_type = "bad".to_string();
    let r = decode_rows(vec![good_row("r1"), second, third]);
    assert_eq!(r.unwrap_err(), "invalid timestamp in row r2");
}

#[test]
fn testdata_count() {
    assert_eq!(TESTDATA_EVENT_COUNT, 1000);
}
