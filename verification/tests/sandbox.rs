use metio::streams::sandbox::{SandboxScriptStage, ScriptValue};
use metio::types::{Event, EventType};

fn event(id: &str, payload: Vec<(String, String)>) -> Event {
    Event {
        event_id: id.to_string(),
        object_id: Some(format!("object-{}", id)),
        event_type: EventType {
            group: "core".to_string(),
            name: "echo".to_string(),
            version: "1".to_string(),
        },
        timestamp: 1_700_000_000_123,
        payload,
    }
}

/// Run one identity call against the stage: the host stages the batch, the
/// "script" returns the staged value unchanged, and the host decodes it.
fn identity_call(events: Vec<Event>) -> Result<Vec<Event>, String> {
    let mut stage = SandboxScriptStage::new("get_events()".to_string());
    stage.stage_batch(events);
    let returned = stage.staged_value();
    stage.finish_call(returned)
}

#[test]
fn marshal_identity_empty_batch() {
    let out = identity_call(Vec::new()).unwrap();
    assert_eq!(out.len(), 0);
}

#[test]
fn marshal_identity_single_event() {
    let events = vec![event("a", vec![("k".to_string(), "v".to_string())])];
    let out = identity_call(events.clone()).unwrap();
    assert_eq!(out, events);
}

#[test]
fn marshal_identity_unicode_payload() {
    let events = vec![
        event(
            "a",
            vec![
                ("gr\u{00fc}\u{00df}e".to_string(), "\u{4e16}\u{754c}".to_string()),
                ("emoji".to_string(), "\u{1f600}\u{1f680}".to_string()),
            ],
        ),
        event("b", Vec::new()),
        event("c", vec![("newline\n".to_string(), "quote\"".to_string())]),
    ];
    let out = identity_call(events.clone()).unwrap();
    assert_eq!(out, events);
}

#[test]
fn marshal_preserves_absent_object_id() {
    let mut e = event("a", Vec::new());
    e.object_id = None;
    let events = vec![e];
    let out = identity_call(events.clone()).unwrap();
    assert_eq!(out, events);
}

#[test]
fn marshal_rejects_non_list() {
    let mut stage = SandboxScriptStage::new("get_events()".to_string());
    stage.stage_batch(vec![event("a", Vec::new())]);
    let r = stage.finish_call(ScriptValue::Text("nope".to_string()));
    assert_eq!(r.unwrap_err(), "script returned an invalid event batch");
}

#[test]
fn marshal_rejects_missing_field() {
    let mut stage = SandboxScriptStage::new("get_events()".to_string());
    stage.stage_batch(Vec::new());
    let incomplete = ScriptValue::Object(vec![(
        "eventId".to_string(),
        ScriptValue::Text("a".to_string()),
    )]);
    let r = stage.finish_call(ScriptValue::List(vec![incomplete]));
    assert!(r.is_err());
}

#[test]
fn marshal_rejects_non_string_payload_value() {
    let mut stage = SandboxScriptStage::new("get_events()".to_string());
    stage.stage_batch(vec![event("a", Vec::new())]);
    let staged = stage.staged_value();
    let tampered = match staged {
        ScriptValue::List(mut items) => {
            match &mut items[0] {
                ScriptValue::Object(fields) => {
                    // the payload object is the fifth binding
                    fields[4].1 = ScriptValue::Object(vec![(
                        "n".to_string(),
                        ScriptValue::Int(3),
                    )]);
                }
                _ => unreachable!(),
            }
            ScriptValue::List(items)
        }
        _ => unreachable!(),
    };
    let r = stage.finish_call(tampered);
    assert!(r.is_err());
}

#[test]
fn marshal_rejects_duplicate_payload_keys() {
    let mut stage = SandboxScriptStage::new("get_events()".to_string());
    stage.stage_batch(Vec::new());
    let duplicated = ScriptValue::Object(vec![
        ("eventId".to_string(), ScriptValue::Text("a".to_string())),
        ("objectId".to_string(), ScriptValue::Null),
        ("eventType".to_string(), ScriptValue::Text("g/n/v".to_string())),
        ("timestamp".to_string(), ScriptValue::Int(0)),
        (
            "payload".to_string(),
            ScriptValue::Object(vec![
                ("k".to_string(), ScriptValue::Text("1".to_string())),
                ("k".to_string(), ScriptValue::Text("2".to_string())),
            ]),
        ),
    ]);
    let r = stage.finish_call(ScriptValue::List(vec![duplicated]));
    assert!(r.is_err());
}

#[test]
fn marshal_rejects_bad_event_type_text() {
    let mut stage = SandboxScriptStage::new("get_events()".to_string());
    stage.stage_batch(Vec::new());
    let bad = ScriptValue::Object(vec![
        ("eventId".to_string(), ScriptValue::Text("a".to_string())),
        ("objectId".to_string(), ScriptValue::Null),
        ("eventType".to_string(), ScriptValue::Text("only/two".to_string())),
        ("timestamp".to_string(), ScriptValue::Int(0)),
        ("payload".to_string(), ScriptValue::Object(Vec::new())),
    ]);
    let r = stage.finish_call(ScriptValue::List(vec![bad]));
    assert!(r.is_err());
}

#[test]
fn script_can_filter_and_reorder() {
    // The stage takes the script's output as the new batch: dropping and
    // reordering events is the script's call, not the stage's.
    let events = vec![event("a", Vec::new()), event("b", Vec::new()), event("c", Vec::new())];
    let mut stage = SandboxScriptStage::new("get_events()".to_string());
    stage.stage_batch(events.clone());
    let reordered = match stage.staged_value() {
        ScriptValue::List(mut items) => {
            items.remove(1);
            items.reverse();
            ScriptValue::List(items)
        }
        _ => unreachable!(),
    };
    let out = stage.finish_call(reordered).unwrap();
    assert_eq!(out, vec![events[2].clone(), events[0].clone()]);
}

#[test]
fn staging_overwrites_previous_batch() {
    let mut stage = SandboxScriptStage::new("get_events()".to_string());
    stage.stage_batch(vec![event("old", Vec::new())]);
    stage.stage_batch(vec![event("new", Vec::new())]);
    let out = stage.finish_call(stage.staged_value()).unwrap();
    assert_eq!(out.len(), 1);
    assert_eq!(out[0].event_id, "new");
}

#[test]
fn stage_keeps_its_script() {
    let stage = SandboxScriptStage::new("get_events()".to_string());
    assert_eq!(stage.script(), "get_events()");
}
