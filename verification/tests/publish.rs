use metio::client::error::Kind;
use metio::client::{begin_publish, derive_subject, BatchPublish};
use metio::types::{Event, EventType};

fn event(id: &str, timestamp: i64) -> Event {
    Event {
        event_id: id.to_string(),
        object_id: None,
        event_type: EventType {
            group: "core".to_string(),
            name: "echo".to_string(),
            version: "1".to_string(),
        },
        timestamp,
        payload: Vec::new(),
    }
}

#[test]
fn derive_subject_with_prefix() {
    let subject = derive_subject(&Some("pre".to_string()), "peter");
    assert_eq!(subject, "pre.peter");
}

#[test]
fn derive_subject_without_prefix() {
    let subject = derive_subject(&None, "peter");
    assert_eq!(subject, "peter");
}

#[test]
fn begin_publish_derives_subject() {
    let batch = begin_publish(&Some("pre".to_string()), "s", vec![event("a", 0)]);
    assert_eq!(batch.subject(), "pre.s");
}

/// A test double for the transport: delivery fails for a configured set of
/// event positions, and every attempted delivery is logged.
fn run_batch(events: Vec<Event>, failing: &[usize]) -> (Vec<String>, Result<(), metio::client::error::Error>) {
    let n = events.len();
    let mut batch = BatchPublish::new("subject".to_string(), events);
    let mut delivered = Vec::new();
    let mut position = 0usize;
    while !batch.done() {
        match batch.current_payload() {
            Ok(body) => {
                delivered.push(body);
                if failing.contains(&position) {
                    batch.record(Err(format!("transport rejected event {}", position)));
                } else {
                    batch.record(Ok(()));
                }
            }
            Err(reason) => batch.record(Err(reason)),
        }
        position += 1;
    }
    assert_eq!(batch.attempted(), n);
    let outcome = batch.into_outcome();
    assert_eq!(outcome.attempted, n);
    (delivered, outcome.into_result())
}

#[test]
fn publish_all_succeed() {
    let events = vec![event("a", 0), event("b", 1), event("c", 2)];
    let (delivered, result) = run_batch(events, &[]);
    assert_eq!(delivered.len(), 3);
    assert!(result.is_ok());
}

#[test]
fn publish_partial_failure_isolation() {
    let events = vec![event("a", 0), event("b", 1), event("c", 2), event("d", 3)];
    let (delivered, result) = run_batch(events, &[1, 3]);
    // every event was attempted, failures notwithstanding
    assert_eq!(delivered.len(), 4);
    let error = result.unwrap_err();
    assert!(matches!(error.kind(), Kind::Send));
    assert_eq!(error.message(), "failed to publish 2 events");
    let reasons = error.related_messages().as_ref().unwrap();
    assert_eq!(reasons.len(), 2);
    assert_eq!(reasons[0], "transport rejected event 1");
    assert_eq!(reasons[1], "transport rejected event 3");
}

#[test]
fn publish_failure_iff_nonempty_subset() {
    let events = vec![event("a", 0), event("b", 1)];
    let (_, ok) = run_batch(events, &[]);
    assert!(ok.is_ok());
    let events = vec![event("a", 0), event("b", 1)];
    let (_, failed) = run_batch(events, &[0]);
    assert!(failed.is_err());
}

#[test]
fn publish_end_to_end_scenario() {
    // Three events; the second one's serialization is forced to fail by an
    // unrepresentable timestamp. The other two must still reach the
    // transport, and the call fails once, with a Send error.
    let events = vec![event("one", 0), event("two", i64::MAX), event("three", 2)];
    let (delivered, result) = run_batch(events, &[]);
    assert_eq!(delivered.len(), 2);
    assert!(delivered[0].contains("\"eventId\":\"one\""));
    assert!(delivered[1].contains("\"eventId\":\"three\""));
    let error = result.unwrap_err();
    assert!(matches!(error.kind(), Kind::Send));
    let reasons = error.related_messages().as_ref().unwrap();
    assert_eq!(reasons.len(), 1);
    assert_eq!(reasons[0], "timestamp out of range");
}

#[test]
fn error_display_text() {
    let error = metio::client::error::Error::new(Kind::Connect, "no route".to_string());
    assert_eq!(error.to_text(), "Connect: no route");
    let error = metio::client::error::Error::new_with_related(
        Kind::Send,
        "failed to publish 2 events".to_string(),
        vec!["a".to_string(), "b".to_string()],
    );
    assert_eq!(
        error.to_text(),
        "Send: failed to publish 2 events; related: a, b"
    );
}

#[test]
fn kind_text() {
    assert_eq!(Kind::Config.as_text(), "Config");
    assert_eq!(Kind::Connect.as_text(), "Connect");
    assert_eq!(Kind::Send.as_text(), "Send");
}

#[test]
fn decimal_rendering() {
    assert_eq!(metio::text::u64_decimal(0), "0");
    assert_eq!(metio::text::u64_decimal(7), "7");
    assert_eq!(metio::text::u64_decimal(1203), "1203");
    assert_eq!(metio::text::u64_decimal(u64::MAX), "18446744073709551615");
}
