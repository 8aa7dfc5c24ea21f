//! The sandboxed-script processing stage: the call-scoped slot the host
//! stages a batch in, the dynamic value shape that crosses the trust
//! boundary, and the strict decoding that turns a script's return value back
//! into events — or rejects it as a whole.

use crate::types::{
    events_model, payload_keys_unique, payload_model, spec_parse_type, type_slash_free, Event,
    EventModel, EventType, EventTypeModel,
};
use vstd::prelude::*;

verus! {

/// A dynamic value as the script sees it: the shapes the sandbox runtime can
/// hand back across the boundary.
#[derive(Debug, PartialEq)]
pub enum ScriptValue {
    /// The absent value.
    Null,
    /// A boolean.
    Bool(bool),
    /// An integer.
    Int(i64),
    /// A text value.
    Text(String),
    /// A sequence of values.
    List(Vec<ScriptValue>),
    /// Key/value bindings, in order.
    Object(Vec<(String, ScriptValue)>),
}

/// The first binding of the given key among an object's fields, if any.
pub open spec fn spec_lookup(fields: Seq<(String, ScriptValue)>, key: Seq<char>) -> Option<
    ScriptValue,
>
    decreases fields.len(),
{
    if fields.len() == 0 {
        None
    } else if fields[0].0@ == key {
        Some(fields[0].1)
    } else {
        spec_lookup(fields.drop_first(), key)
    }
}

/// Every value of a payload object is text, and its keys are pairwise
/// distinct: the shapes that decode as a payload mapping.
pub open spec fn spec_payload_fields_ok(fields: Seq<(String, ScriptValue)>) -> bool {
    &&& forall|i: int| 0 <= i < fields.len() ==> fields[i].1 is Text
    &&& forall|i: int, j: int| 0 <= i < j < fields.len() ==> fields[i].0@ != fields[j].0@
}

/// The key/value pairs of a payload object, in object order.
pub open spec fn spec_payload_pairs(fields: Seq<(String, ScriptValue)>) -> Seq<
    (Seq<char>, Seq<char>),
> {
    fields.map_values(
        |kv: (String, ScriptValue)|
            (
                kv.0@,
                match kv.1 {
                    ScriptValue::Text(s) => s@,
                    _ => Seq::<char>::empty(),
                },
            ),
    )
}

/// The subject an event object names: absent where the `objectId` binding is
/// missing or null, its text where it is text, and undefined (the outer
/// `None`) where it has any other shape.
pub open spec fn spec_decode_object_id(fields: Seq<(String, ScriptValue)>) -> Option<
    Option<Seq<char>>,
> {
    match spec_lookup(fields, "objectId"@) {
        None => Some(None),
        Some(ScriptValue::Null) => Some(None),
        Some(ScriptValue::Text(s)) => Some(Some(s@)),
        Some(_) => None,
    }
}

/// What an event object decodes to: defined exactly when `eventId` is text,
/// `eventType` is text in canonical three-segment form, `timestamp` is an
/// integer, `payload` is an object of text values with distinct keys, and
/// `objectId`, if bound, is text or null. Anything else is a marshaling
/// error, never a partial event.
pub open spec fn spec_decode_event(v: ScriptValue) -> Option<EventModel> {
    match v {
        ScriptValue::Object(fobj) => {
            let fields = fobj@;
            match (
                spec_lookup(fields, "eventId"@),
                spec_lookup(fields, "eventType"@),
                spec_lookup(fields, "timestamp"@),
                spec_lookup(fields, "payload"@),
            ) {
                (
                    Some(ScriptValue::Text(id)),
                    Some(ScriptValue::Text(ty)),
                    Some(ScriptValue::Int(ts)),
                    Some(ScriptValue::Object(pl)),
                ) => {
                    match (spec_parse_type(ty@), spec_decode_object_id(fields)) {
                        (Some(tym), Some(obj)) => {
                            if spec_payload_fields_ok(pl@) {
                                Some(
                                    EventModel {
                                        event_id: id@,
                                        object_id: obj,
                                        event_type: tym,
                                        timestamp: ts as int,
                                        payload: spec_payload_pairs(pl@),
                                    },
                                )
                            } else {
                                None
                            }
                        },
                        _ => None,
                    }
                },
                _ => None,
            }
        },
        _ => None,
    }
}

/// What a sequence of event objects decodes to: every element must decode.
pub open spec fn spec_decode_batch_seq(items: Seq<ScriptValue>) -> Option<Seq<EventModel>>
    decreases items.len(),
{
    if items.len() == 0 {
        Some(Seq::empty())
    } else {
        match (spec_decode_batch_seq(items.drop_last()), spec_decode_event(items.last())) {
            (Some(rest), Some(e)) => Some(rest.push(e)),
            _ => None,
        }
    }
}

/// What a script's return value decodes to: a list whose every element
/// decodes as an event, and nothing else.
pub open spec fn spec_decode_batch(v: ScriptValue) -> Option<Seq<EventModel>> {
    match v {
        ScriptValue::List(items) => spec_decode_batch_seq(items@),
        _ => None,
    }
}

/// The payload object the host builds for an event: one text binding per
/// payload pair, in payload order.
pub open spec fn encodes_payload(
    fields: Seq<(String, ScriptValue)>,
    payload: Seq<(Seq<char>, Seq<char>)>,
) -> bool {
    &&& fields.len() == payload.len()
    &&& forall|i: int|
        0 <= i < fields.len() ==> ((#[trigger] fields[i]).0@ == payload[i].0 && (fields[i].1 matches
            ScriptValue::Text(s) && s@ == payload[i].1))
}

/// The object the host builds for an event: exactly the five canonical
/// bindings, in canonical order, `objectId` null where the event names no
/// subject.
pub open spec fn encodes_event(v: ScriptValue, m: EventModel) -> bool {
    &&& v matches ScriptValue::Object(fobj)
    &&& {
        let fields = fobj@;
        &&& fields.len() == 5
        &&& fields[0].0@ == "eventId"@
        &&& fields[0].1 matches ScriptValue::Text(id) && id@ == m.event_id
        &&& fields[1].0@ == "objectId"@
        &&& match m.object_id {
            Some(o) => fields[1].1 matches ScriptValue::Text(t) && t@ == o,
            None => fields[1].1 is Null,
        }
        &&& fields[2].0@ == "eventType"@
        &&& fields[2].1 matches ScriptValue::Text(ty) && ty@ == crate::types::spec_type_text(
            m.event_type,
        )
        &&& fields[3].0@ == "timestamp"@
        &&& fields[3].1 matches ScriptValue::Int(n) && n as int == m.timestamp
        &&& fields[4].0@ == "payload"@
        &&& fields[4].1 matches ScriptValue::Object(pl) && encodes_payload(pl@, m.payload)
    }
}

/// The value the host stages for the script: the whole batch as a list of
/// event objects, in batch order.
pub open spec fn encodes_batch(v: ScriptValue, ms: Seq<EventModel>) -> bool {
    &&& v matches ScriptValue::List(items)
    &&& items@.len() == ms.len()
    &&& forall|i: int| 0 <= i < ms.len() ==> encodes_event(#[trigger] items@[i], ms[i])
}

/// Marshaling fidelity for one event: decoding what the host encodes yields
/// the event back, field for field, payload pairs included — provided the
/// event is well formed and its type's segments hold no `/`.
pub proof fn lemma_event_round_trip(v: ScriptValue, m: EventModel)
    requires
        encodes_event(v, m),
        m.wf(),
        type_slash_free(m.event_type),
    ensures
        spec_decode_event(v) == Some(m),
{
    reveal_with_fuel(spec_lookup, 6);
    reveal_strlit("eventId");
    reveal_strlit("objectId");
    reveal_strlit("eventType");
    reveal_strlit("timestamp");
    reveal_strlit("payload");
    let fields = (match v {
        ScriptValue::Object(fobj) => fobj@,
        _ => Seq::empty(),
    });
    assert(fields.len() == 5);
    assert("eventId"@.len() == 7 && "objectId"@.len() == 8 && "eventType"@.len() == 9
        && "timestamp"@.len() == 9 && "payload"@.len() == 7);
    assert("eventId"@[0] == 'e' && "objectId"@[0] == 'o' && "eventType"@[0] == 'e'
        && "timestamp"@[0] == 't' && "payload"@[0] == 'p');
    assert("eventId"@[5] == 'I' && "eventType"@[5] == 'T');
    assert(fields.drop_first()[0] == fields[1]);
    assert(fields.drop_first().drop_first()[0] == fields[2]);
    assert(fields.drop_first().drop_first().drop_first()[0] == fields[3]);
    assert(fields.drop_first().drop_first().drop_first().drop_first()[0] == fields[4]);
    assert(spec_lookup(fields, "eventId"@) == Some(fields[0].1));
    assert(spec_lookup(fields, "objectId"@) == Some(fields[1].1));
    assert(spec_lookup(fields, "eventType"@) == Some(fields[2].1));
    assert(spec_lookup(fields, "timestamp"@) == Some(fields[3].1));
    assert(spec_lookup(fields, "payload"@) == Some(fields[4].1));
    crate::types::lemma_type_round_trip(m.event_type);
    let pl = (match fields[4].1 {
        ScriptValue::Object(p) => p@,
        _ => Seq::empty(),
    });
    assert(spec_payload_fields_ok(pl)) by {
        assert(forall|i: int| 0 <= i < pl.len() ==> (#[trigger] pl[i]).1 is Text);
        assert(forall|i: int, j: int| 0 <= i < j < pl.len() ==> pl[i].0@ != pl[j].0@) by {
            assert(payload_keys_unique(m.payload));
            assert(forall|i: int| 0 <= i < pl.len() ==> (#[trigger] pl[i]).0@ == m.payload[i].0);
        }
    }
    assert(spec_payload_pairs(pl) =~= m.payload);
    assert(spec_decode_object_id(fields) == Some(m.object_id));
    assert(spec_decode_event(v) == Some(m));
}

/// Marshaling fidelity for a batch: decoding what the host stages yields
/// every event back, in order — the identity script changes nothing.
pub proof fn lemma_batch_round_trip(v: ScriptValue, ms: Seq<EventModel>)
    requires
        encodes_batch(v, ms),
        forall|i: int| 0 <= i < ms.len() ==> (#[trigger] ms[i]).wf() && type_slash_free(
            ms[i].event_type,
        ),
    ensures
        spec_decode_batch(v) == Some(ms),
{
    let items = (match v {
        ScriptValue::List(it) => it@,
        _ => Seq::empty(),
    });
    lemma_batch_seq_round_trip(items, ms);
}

/// Build the payload object of an event's boundary encoding.
fn encode_payload(payload: &Vec<(String, String)>) -> (r: Vec<(String, ScriptValue)>)
    ensures
        encodes_payload(r@, payload_model(payload@)),
{
    let mut pl: Vec<(String, ScriptValue)> = Vec::new();
    let mut i: usize = 0;
    while i < payload.len()
        invariant
            i <= payload.len(),
            pl@.len() == i,
            encodes_payload(pl@, payload_model(payload@).take(i as int)),
        decreases payload.len() - i,
    {
        let ghost old_pl = pl@;
        pl.push((payload[i].0.clone(), ScriptValue::Text(payload[i].1.clone())));
        i = i + 1;
        proof {
            assert(pl@ == old_pl.push(pl@.last()));
            assert(pl@.last().0@ == payload_model(payload@)[i as int - 1].0);
            assert(pl@.last().1 matches ScriptValue::Text(s) && s@ == payload_model(
                payload@,
            )[i as int - 1].1);
            assert(forall|k: int| 0 <= k < i as int - 1 ==> pl@[k] == old_pl[k]);
            assert(encodes_payload(pl@, payload_model(payload@).take(i as int)));
        }
    }
    proof {
        assert(payload_model(payload@).take(payload@.len() as int) =~= payload_model(payload@));
    }
    pl
}

/// Build the object an event crosses the boundary as.
fn encode_event_value(e: &Event) -> (v: ScriptValue)
    ensures
        encodes_event(v, e@),
{
    let mut fields: Vec<(String, ScriptValue)> = Vec::new();
    fields.push((String::from_str("eventId"), ScriptValue::Text(e.event_id.clone())));
    let object_id = match &e.object_id {
        Some(o) => ScriptValue::Text(o.clone()),
        None => ScriptValue::Null,
    };
    fields.push((String::from_str("objectId"), object_id));
    fields.push((String::from_str("eventType"), ScriptValue::Text(e.event_type.to_text())));
    fields.push((String::from_str("timestamp"), ScriptValue::Int(e.timestamp)));
    let pl = encode_payload(&e.payload);
    fields.push((String::from_str("payload"), ScriptValue::Object(pl)));
    let v = ScriptValue::Object(fields);
    proof {
        assert(encodes_event(v, e@));
    }
    v
}

/// Build the list a whole batch crosses the boundary as.
fn encode_batch_value(events: &Vec<Event>) -> (v: ScriptValue)
    ensures
        encodes_batch(v, events_model(events@)),
{
    let mut items: Vec<ScriptValue> = Vec::new();
    let mut i: usize = 0;
    while i < events.len()
        invariant
            i <= events.len(),
            items@.len() == i,
            forall|k: int|
                0 <= k < i as int ==> encodes_event(
                    #[trigger] items@[k],
                    events_model(events@)[k],
                ),
        decreases events.len() - i,
    {
        let ghost old_items = items@;
        let ev = encode_event_value(&events[i]);
        items.push(ev);
        i = i + 1;
        proof {
            assert(forall|k: int| 0 <= k < i as int - 1 ==> items@[k] == old_items[k]);
            assert(items@.last() == ev);
            assert(events_model(events@)[i as int - 1] == events@[i as int - 1]@);
        }
    }
    let v = ScriptValue::List(items);
    proof {
        assert(events_model(events@).len() == events@.len());
        assert(encodes_batch(v, events_model(events@)));
    }
    v
}

/// Find the first binding of the given key among an object's fields.
fn lookup(fields: &Vec<(String, ScriptValue)>, key: &String) -> (r: Option<usize>)
    ensures
        match r {
            Some(j) => j < fields@.len() && fields@[j as int].0@ == key@ && spec_lookup(
                fields@,
                key@,
            ) == Some(fields@[j as int].1),
            None => spec_lookup(fields@, key@) is None,
        },
{
    let mut i: usize = 0;
    proof {
        assert(fields@.skip(0) =~= fields@);
    }
    while i < fields.len()
        invariant
            i <= fields@.len(),
            spec_lookup(fields@, key@) == spec_lookup(fields@.skip(i as int), key@),
        decreases fields@.len() - i,
    {
        proof {
            assert(fields@.skip(i as int)[0] == fields@[i as int]);
        }
        if fields[i].0 == *key {
            return Some(i);
        }
        i = i + 1;
        proof {
            assert(fields@.skip(i as int - 1).drop_first() =~= fields@.skip(i as int));
        }
    }
    proof {
        assert(fields@.skip(i as int) =~= Seq::<(String, ScriptValue)>::empty());
    }
    None
}

/// Decode a payload object, rejecting any non-text value and any repeated
/// key.
fn decode_payload(pl: &Vec<(String, ScriptValue)>) -> (r: Option<Vec<(String, String)>>)
    ensures
        match r {
            Some(out) => spec_payload_fields_ok(pl@) && payload_model(out@)
                == spec_payload_pairs(pl@),
            None => !spec_payload_fields_ok(pl@),
        },
{
    let mut out: Vec<(String, String)> = Vec::new();
    let mut i: usize = 0;
    while i < pl.len()
        invariant
            i <= pl.len(),
            out@.len() == i,
            forall|k: int| 0 <= k < i as int ==> (#[trigger] pl@[k]).1 is Text,
            forall|a: int, b: int| 0 <= a < b < i as int ==> pl@[a].0@ != pl@[b].0@,
            payload_model(out@) =~= spec_payload_pairs(pl@).take(i as int),
        decreases pl.len() - i,
    {
        let value = match &pl[i].1 {
            ScriptValue::Text(s) => s.clone(),
            _ => {
                return None;
            },
        };
        let mut j: usize = 0;
        while j < i
            invariant
                j <= i < pl@.len(),
                forall|a: int| 0 <= a < j as int ==> pl@[a].0@ != pl@[i as int].0@,
            decreases i - j,
        {
            if pl[j].0 == pl[i].0 {
                return None;
            }
            j = j + 1;
        }
        let ghost old_out = out@;
        out.push((pl[i].0.clone(), value));
        i = i + 1;
        proof {
            assert(payload_model(old_out) == spec_payload_pairs(pl@).take(i as int - 1));
            assert(payload_model(old_out).len() == old_out.len());
            assert(old_out.len() == i as int - 1);
            assert(out@ == old_out.push(out@.last()));
            assert(out@.last().0@ == spec_payload_pairs(pl@)[i as int - 1].0);
            assert(out@.last().1@ == spec_payload_pairs(pl@)[i as int - 1].1);
            assert forall|k: int| 0 <= k < i as int implies payload_model(out@)[k]
                == spec_payload_pairs(pl@).take(i as int)[k] by {
                if k < i as int - 1 {
                    assert(out@[k] == old_out[k]);
                    assert(payload_model(old_out)[k] == spec_payload_pairs(pl@).take(
                        i as int - 1,
                    )[k]);
                }
            }
            assert(payload_model(out@) =~= spec_payload_pairs(pl@).take(i as int));
        }
    }
    proof {
        assert(spec_payload_pairs(pl@).take(pl@.len() as int) =~= spec_payload_pairs(pl@));
    }
    Some(out)
}

/// Decode one event object, strictly: any missing required binding or any
/// wrongly shaped value rejects the whole event.
fn decode_event_value(v: &ScriptValue) -> (r: Option<Event>)
    ensures
        match r {
            Some(e) => spec_decode_event(*v) == Some(e@),
            None => spec_decode_event(*v) is None,
        },
{
    let fields = match v {
        ScriptValue::Object(f) => f,
        _ => {
            return None;
        },
    };
    let key_id = String::from_str("eventId");
    let key_obj = String::from_str("objectId");
    let key_ty = String::from_str("eventType");
    let key_ts = String::from_str("timestamp");
    let key_pl = String::from_str("payload");
    let event_id = match lookup(fields, &key_id) {
        Some(j) => match &fields[j].1 {
            ScriptValue::Text(s) => s.clone(),
            _ => {
                return None;
            },
        },
        None => {
            return None;
        },
    };
    let event_type = match lookup(fields, &key_ty) {
        Some(j) => match &fields[j].1 {
            ScriptValue::Text(s) => match EventType::from_str(s.as_str()) {
                Ok(t) => t,
                Err(_) => {
                    return None;
                },
            },
            _ => {
                return None;
            },
        },
        None => {
            return None;
        },
    };
    let timestamp = match lookup(fields, &key_ts) {
        Some(j) => match &fields[j].1 {
            ScriptValue::Int(n) => *n,
            _ => {
                return None;
            },
        },
        None => {
            return None;
        },
    };
    let object_id = match lookup(fields, &key_obj) {
        Some(j) => match &fields[j].1 {
            ScriptValue::Null => None,
            ScriptValue::Text(s) => Some(s.clone()),
            _ => {
                return None;
            },
        },
        None => None,
    };
    let payload = match lookup(fields, &key_pl) {
        Some(j) => match &fields[j].1 {
            ScriptValue::Object(pl) => match decode_payload(pl) {
                Some(p) => p,
                None => {
                    return None;
                },
            },
            _ => {
                return None;
            },
        },
        None => {
            return None;
        },
    };
    let e = Event { event_id, object_id, event_type, timestamp, payload };
    proof {
        assert(spec_decode_event(*v) == Some(e@));
    }
    Some(e)
}

/// A batch with one undecodable element does not decode at all.
proof fn lemma_batch_seq_elem_fails(items: Seq<ScriptValue>, i: int)
    requires
        0 <= i < items.len(),
        spec_decode_event(items[i]) is None,
    ensures
        spec_decode_batch_seq(items) is None,
    decreases items.len(),
{
    if i < items.len() - 1 {
        lemma_batch_seq_elem_fails(items.drop_last(), i);
    }
}

/// Decode a script's return value into events. All or nothing: one bad
/// element rejects the whole batch.
fn decode_batch_value(v: &ScriptValue) -> (r: Option<Vec<Event>>)
    ensures
        match r {
            Some(evs) => spec_decode_batch(*v) == Some(events_model(evs@)),
            None => spec_decode_batch(*v) is None,
        },
{
    let items = match v {
        ScriptValue::List(it) => it,
        _ => {
            return None;
        },
    };
    let mut out: Vec<Event> = Vec::new();
    let mut i: usize = 0;
    while i < items.len()
        invariant
            i <= items.len(),
            out@.len() == i,
            spec_decode_batch(*v) == spec_decode_batch_seq(items@),
            spec_decode_batch_seq(items@.take(i as int)) == Some(events_model(out@)),
        decreases items.len() - i,
    {
        let e = match decode_event_value(&items[i]) {
            Some(e) => e,
            None => {
                proof {
                    lemma_batch_seq_elem_fails(items@, i as int);
                }
                return None;
            },
        };
        let ghost old_out = out@;
        out.push(e);
        i = i + 1;
        proof {
            let t = items@.take(i as int);
            assert(t.drop_last() =~= items@.take(i as int - 1));
            assert(t.last() == items@[i as int - 1]);
            assert(events_model(old_out).len() == old_out.len());
            assert(out@ == old_out.push(out@.last()));
            assert forall|k: int| 0 <= k < i as int implies events_model(out@)[k] == events_model(
                old_out,
            ).push(out@.last()@)[k] by {
                if k < i as int - 1 {
                    assert(out@[k] == old_out[k]);
                }
            }
            assert(events_model(out@) =~= events_model(old_out).push(out@.last()@));
        }
    }
    proof {
        assert(items@.take(items@.len() as int) =~= items@);
    }
    Some(out)
}

proof fn lemma_batch_seq_round_trip(items: Seq<ScriptValue>, ms: Seq<EventModel>)
    requires
        items.len() == ms.len(),
        forall|i: int| 0 <= i < ms.len() ==> encodes_event(#[trigger] items[i], ms[i]),
        forall|i: int| 0 <= i < ms.len() ==> (#[trigger] ms[i]).wf() && type_slash_free(
            ms[i].event_type,
        ),
    ensures
        spec_decode_batch_seq(items) == Some(ms),
    decreases items.len(),
{
    if items.len() == 0 {
        assert(spec_decode_batch_seq(items) == Some(Seq::<EventModel>::empty()));
        assert(ms =~= Seq::<EventModel>::empty());
    } else {
        lemma_batch_seq_round_trip(items.drop_last(), ms.drop_last());
        lemma_event_round_trip(items.last(), ms.last());
        assert(ms.drop_last().push(ms.last()) =~= ms);
    }
}

/// Mathematical model of a [`SandboxScriptStage`]: the script it runs and
/// the batch currently staged for a call, if one is in flight.
pub ghost struct StageModel {
    pub script: Seq<char>,
    pub staged: Option<Seq<EventModel>>,
}

/// The sandboxed-script processing stage: it owns the caller-supplied script
/// and the single call-scoped slot the input batch is staged in.
///
/// The slot is overwritten, never appended to, so only one call may be in
/// flight against a given stage at a time; concurrent calls on one instance
/// are not supported. The host protocol for one call is: stage the batch,
/// hand [`Self::staged_value`] to the script as its only capability, run the
/// script, and pass its return value to [`Self::finish_call`], which either
/// decodes the whole batch or rejects it — never part of it.
#[derive(Debug)]
pub struct SandboxScriptStage {
    script: String,
    staged: Option<Vec<Event>>,
}

impl View for SandboxScriptStage {
    type V = StageModel;

    closed spec fn view(&self) -> StageModel {
        StageModel {
            script: self.script@,
            staged: match self.staged {
                Some(events) => Some(events_model(events@)),
                None => None,
            },
        }
    }
}

impl SandboxScriptStage {
    /// Make a stage that will run the given script, with no call in flight.
    pub fn new(script: String) -> (r: SandboxScriptStage)
        ensures
            r@ == (StageModel { script: script@, staged: None }),
    {
        SandboxScriptStage { script, staged: None }
    }

    /// The script this stage runs.
    pub fn script(&self) -> (r: &String)
        ensures
            r@ == self@.script,
    {
        &self.script
    }

    /// Stage a batch for the next call, overwriting whatever was staged
    /// before.
    pub fn stage_batch(&mut self, events: Vec<Event>)
        ensures
            final(self)@ == (StageModel {
                script: old(self)@.script,
                staged: Some(events_model(events@)),
            }),
    {
        self.staged = Some(events);
    }

    /// The value the script's one capability returns: the staged batch,
    /// encoded for the boundary.
    pub fn staged_value(&self) -> (v: ScriptValue)
        requires
            self@.staged is Some,
        ensures
            encodes_batch(v, self@.staged->0),
    {
        match &self.staged {
            Some(events) => encode_batch_value(events),
            None => ScriptValue::List(Vec::new()),
        }
    }

    /// Accept the script's return value, clearing the slot. The value either
    /// decodes as a whole batch of events or the call fails; no partially
    /// decoded batch is ever returned.
    pub fn finish_call(&mut self, returned: ScriptValue) -> (r: Result<Vec<Event>, String>)
        ensures
            final(self)@.script == old(self)@.script,
            final(self)@.staged is None,
            match spec_decode_batch(returned) {
                Some(ms) => r matches Ok(evs) && events_model(evs@) == ms,
                None => r matches Err(m) && m@ == "script returned an invalid event batch"@,
            },
    {
        self.staged = None;
        match decode_batch_value(&returned) {
            Some(evs) => Ok(evs),
            None => Err(String::from_str("script returned an invalid event batch")),
        }
    }
}

} // verus!
