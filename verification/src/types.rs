//! The event model: immutable value types for events and their classifiers,
//! together with their canonical text encodings.

use crate::text::push_char;
use vstd::prelude::*;

verus! {

/// Mathematical model of an [`EventType`]: the three segments as character
/// sequences.
pub ghost struct EventTypeModel {
    pub group: Seq<char>,
    pub name: Seq<char>,
    pub version: Seq<char>,
}

/// The type information of an event: a three-part classifier.
///
/// The canonical text form is `"<group>/<name>/<version>"`.
#[derive(Debug, Clone, PartialEq, Eq)]
pub struct EventType {
    /// The group of the event type. If it is not set `core` is assumed.
    pub group: String,
    /// The name of the event type.
    pub name: String,
    /// The version of the event type.
    pub version: String,
}

impl View for EventType {
    type V = EventTypeModel;

    open spec fn view(&self) -> EventTypeModel {
        EventTypeModel { group: self.group@, name: self.name@, version: self.version@ }
    }
}

/// The canonical text of an event type: the three segments joined by `/`.
pub open spec fn spec_type_text(t: EventTypeModel) -> Seq<char> {
    t.group + seq!['/'] + t.name + seq!['/'] + t.version
}

impl EventType {
    /// Render the canonical text form `"<group>/<name>/<version>"`.
    /// Pure and total.
    pub fn to_text(&self) -> (r: String)
        ensures
            r@ == spec_type_text(self@),
    {
        proof {
            reveal_strlit("/");
        }
        let mut s = self.group.clone();
        s.append("/");
        s.append(self.name.as_str());
        s.append("/");
        s.append(self.version.as_str());
        proof {
            assert(s@ =~= spec_type_text(self@));
        }
        s
    }
}

/// Mathematical model of an [`Event`]: every text field as a character
/// sequence, the timestamp as an unbounded integer, the payload as a sequence
/// of key/value pairs.
pub ghost struct EventModel {
    pub event_id: Seq<char>,
    pub object_id: Option<Seq<char>>,
    pub event_type: EventTypeModel,
    pub timestamp: int,
    pub payload: Seq<(Seq<char>, Seq<char>)>,
}

/// A single occurrence: an immutable value object created by a producer and
/// passed by value through processors to the publisher or the store.
#[derive(Debug, Clone, PartialEq)]
pub struct Event {
    /// Caller-assigned unique identifier of the occurrence.
    pub event_id: String,
    /// The subject the event is about, if any.
    pub object_id: Option<String>,
    /// The three-part classifier of the event.
    pub event_type: EventType,
    /// The UTC instant of the occurrence, in milliseconds since the Unix
    /// epoch.
    pub timestamp: i64,
    /// String-keyed, string-valued payload; unordered, keys unique.
    pub payload: Vec<(String, String)>,
}

/// The payload pairs of an event as character sequences.
pub open spec fn payload_model(p: Seq<(String, String)>) -> Seq<(Seq<char>, Seq<char>)> {
    p.map_values(|kv: (String, String)| (kv.0@, kv.1@))
}

impl View for Event {
    type V = EventModel;

    open spec fn view(&self) -> EventModel {
        EventModel {
            event_id: self.event_id@,
            object_id: match self.object_id {
                Some(o) => Some(o@),
                None => None,
            },
            event_type: self.event_type@,
            timestamp: self.timestamp as int,
            payload: payload_model(self.payload@),
        }
    }
}

impl EventType {
    /// A copy of this event type, equal to it field for field.
    pub fn duplicate(&self) -> (r: EventType)
        ensures
            r@ == self@,
    {
        EventType {
            group: self.group.clone(),
            name: self.name.clone(),
            version: self.version.clone(),
        }
    }
}

impl Event {
    /// A copy of this event, equal to it field for field.
    pub fn duplicate(&self) -> (r: Event)
        ensures
            r@ == self@,
    {
        let mut payload: Vec<(String, String)> = Vec::new();
        let mut i: usize = 0;
        while i < self.payload.len()
            invariant
                i <= self.payload.len(),
                payload_model(payload@) =~= payload_model(self.payload@).take(i as int),
            decreases self.payload.len() - i,
        {
            let ghost old_payload = payload@;
            payload.push((self.payload[i].0.clone(), self.payload[i].1.clone()));
            i = i + 1;
            proof {
                assert(payload_model(old_payload) == payload_model(self.payload@).take(
                    i as int - 1,
                ));
                assert(payload_model(old_payload).len() == old_payload.len());
                assert(old_payload.len() == i as int - 1);
                assert(payload@ == old_payload.push(payload@.last()));
                assert(payload@.last().0@ == self.payload@[i as int - 1].0@);
                assert(payload@.last().1@ == self.payload@[i as int - 1].1@);
                assert forall|k: int| 0 <= k < i as int implies payload_model(payload@)[k]
                    == payload_model(self.payload@).take(i as int)[k] by {
                    if k < i as int - 1 {
                        assert(payload@[k] == old_payload[k]);
                        assert(payload_model(old_payload)[k] == payload_model(
                            self.payload@,
                        ).take(i as int - 1)[k]);
                    }
                }
                assert(payload_model(payload@) =~= payload_model(self.payload@).take(i as int));
            }
        }
        proof {
            assert(payload_model(self.payload@).take(self.payload@.len() as int) =~= payload_model(
                self.payload@,
            ));
        }
        let r = Event {
            event_id: self.event_id.clone(),
            object_id: match &self.object_id {
                Some(o) => Some(o.clone()),
                None => None,
            },
            event_type: self.event_type.duplicate(),
            timestamp: self.timestamp,
            payload,
        };
        proof {
            assert(r@ == self@);
        }
        r
    }
}

/// The events of a batch as their models, in batch order.
pub open spec fn events_model(events: Seq<Event>) -> Seq<EventModel> {
    events.map_values(|e: Event| e@)
}

/// Payload keys are pairwise distinct: the pair sequence denotes a mapping.
pub open spec fn payload_keys_unique(p: Seq<(Seq<char>, Seq<char>)>) -> bool {
    forall|i: int, j: int| 0 <= i < j < p.len() ==> p[i].0 != p[j].0
}

/// The mapping a sequence of key/value pairs denotes; a later binding of a
/// key wins over an earlier one.
pub open spec fn pairs_to_map(p: Seq<(Seq<char>, Seq<char>)>) -> Map<Seq<char>, Seq<char>>
    decreases p.len(),
{
    if p.len() == 0 {
        Map::empty()
    } else {
        pairs_to_map(p.drop_last()).insert(p.last().0, p.last().1)
    }
}

impl EventModel {
    /// A well-formed event: its payload pair sequence denotes a mapping.
    pub open spec fn wf(self) -> bool {
        payload_keys_unique(self.payload)
    }
}

/// Split a character sequence on `/`. The result always holds one segment
/// more than the sequence holds slashes; segments may be empty.
pub open spec fn split_slash(s: Seq<char>) -> Seq<Seq<char>>
    decreases s.len(),
{
    if s.len() == 0 {
        seq![Seq::<char>::empty()]
    } else {
        let rest = split_slash(s.drop_last());
        if s.last() == '/' {
            rest.push(Seq::<char>::empty())
        } else {
            rest.update(rest.len() - 1, rest.last().push(s.last()))
        }
    }
}

proof fn lemma_split_slash_nonempty(s: Seq<char>)
    ensures
        split_slash(s).len() >= 1,
    decreases s.len(),
{
    if s.len() > 0 {
        lemma_split_slash_nonempty(s.drop_last());
    }
}

/// Parsing the canonical text of an event type: defined exactly when the
/// text splits into three segments on `/`.
pub open spec fn spec_parse_type(s: Seq<char>) -> Option<EventTypeModel> {
    let parts = split_slash(s);
    if parts.len() == 3 {
        Some(EventTypeModel { group: parts[0], name: parts[1], version: parts[2] })
    } else {
        None
    }
}

impl EventType {
    /// Parse the canonical text form, accepting exactly three `/`-separated
    /// segments (which may be empty) and rejecting every other segment count
    /// with the offending input named in the error.
    pub fn from_str(s: &str) -> (r: Result<EventType, String>)
        ensures
            match spec_parse_type(s@) {
                Some(m) => r matches Ok(t) && t@ == m,
                None => r matches Err(e) && e@ == "invalid event type: "@ + s@,
            },
    {
        let n = s.unicode_len();
        let mut parts: Vec<String> = Vec::new();
        let mut cur = String::new();
        let mut i: usize = 0;
        while i < n
            invariant
                i <= n,
                n == s@.len(),
                parts@.map_values(|p: String| p@).push(cur@) =~= split_slash(s@.take(i as int)),
            decreases n - i,
        {
            let c = s.get_char(i);
            let ghost old_parts = parts@.map_values(|p: String| p@);
            let ghost old_cur = cur@;
            if c == '/' {
                parts.push(cur);
                cur = String::new();
            } else {
                push_char(&mut cur, c);
            }
            i = i + 1;
            proof {
                let t = s@.take(i as int);
                assert(t.drop_last() =~= s@.take(i as int - 1));
                assert(t.last() == s@[i as int - 1]);
                lemma_split_slash_nonempty(t.drop_last());
                if c == '/' {
                    assert(parts@.map_values(|p: String| p@) =~= old_parts.push(old_cur));
                    assert(parts@.map_values(|p: String| p@).push(cur@) =~= split_slash(t));
                } else {
                    let prev = split_slash(t.drop_last());
                    assert(prev =~= old_parts.push(old_cur));
                    assert(split_slash(t) =~= prev.update(prev.len() - 1, prev.last().push(c)));
                    assert(parts@.map_values(|p: String| p@).push(cur@) =~= split_slash(t));
                }
            }
        }
        proof {
            assert(s@.take(n as int) =~= s@);
        }
        parts.push(cur);
        proof {
            assert(parts@.map_values(|p: String| p@) =~= split_slash(s@));
        }
        if parts.len() == 3 {
            let version = parts.pop().unwrap();
            let name = parts.pop().unwrap();
            let group = parts.pop().unwrap();
            proof {
                let whole = split_slash(s@);
                assert(group@ == whole[0] && name@ == whole[1] && version@ == whole[2]);
            }
            Ok(EventType { group, name, version })
        } else {
            let mut e = String::from_str("invalid event type: ");
            e.append(s);
            Err(e)
        }
    }
}

/// Appending slash-free text to a sequence extends the final segment of its
/// split and leaves the earlier segments alone.
proof fn lemma_split_append_nonslash(a: Seq<char>, x: Seq<char>)
    requires
        forall|k: int| 0 <= k < x.len() ==> x[k] != '/',
    ensures
        split_slash(a + x).len() == split_slash(a).len(),
        split_slash(a + x) =~= split_slash(a).update(
            split_slash(a).len() - 1,
            split_slash(a).last() + x,
        ),
    decreases x.len(),
{
    lemma_split_slash_nonempty(a);
    if x.len() == 0 {
        assert(a + x =~= a);
        assert(split_slash(a).last() + x =~= split_slash(a).last());
        assert(split_slash(a).update(
            split_slash(a).len() - 1,
            split_slash(a).last() + x,
        ) =~= split_slash(a));
    } else {
        lemma_split_append_nonslash(a, x.drop_last());
        let s = a + x;
        assert(s.len() > 0);
        assert(s.drop_last() =~= a + x.drop_last());
        assert(s.last() == x.last());
        assert(s.last() != '/');
        let prev = split_slash(a + x.drop_last());
        assert(split_slash(s) =~= prev.update(prev.len() - 1, prev.last().push(x.last())));
        assert(prev.last() =~= split_slash(a).last() + x.drop_last());
        assert((split_slash(a).last() + x.drop_last()).push(x.last()) =~= split_slash(a).last() + x);
    }
}

/// Appending a slash starts a fresh, empty final segment.
proof fn lemma_split_append_slash(a: Seq<char>)
    ensures
        split_slash(a + seq!['/']) =~= split_slash(a).push(Seq::<char>::empty()),
{
    let s = a + seq!['/'];
    assert(s.len() > 0);
    assert(s.drop_last() =~= a);
    assert(s.last() == '/');
}

/// What chrono renders for an instant: the RFC 3339 text of the UTC date and
/// time at the given count of milliseconds since the Unix epoch, or nothing
/// where the count lies outside chrono's representable range of dates.
pub uninterp spec fn rfc3339_text(millis: int) -> Option<Seq<char>>;

/// Relies on chrono's `DateTime::<Utc>::from_timestamp_millis`, which returns
/// `None` exactly on an out-of-range count, and `DateTime::to_rfc3339`, whose
/// text depends on the instant alone. The rendered text is round-trippable:
/// it is in the RFC 3339 form chrono's `DateTime<Utc>` parser accepts, and it
/// carries the instant's full millisecond precision, so parsing it back
/// yields the same count.
#[verifier::external_body]
pub(crate) fn render_timestamp(millis: i64) -> (r: Option<String>)
    ensures
        match r {
            Some(s) => rfc3339_text(millis as int) == Some(s@) && spec_parse_timestamp(s@)
                == Some(millis as int),
            None => rfc3339_text(millis as int) is None,
        },
{
    match chrono::DateTime::<chrono::Utc>::from_timestamp_millis(millis) {
        Some(d) => Some(d.to_rfc3339()),
        None => None,
    }
}

/// What chrono reads from a timestamp text: the instant, in milliseconds
/// since the Unix epoch, of a UTC date and time written in the relaxed
/// RFC 3339 form, or nothing where the text is not in that form.
pub uninterp spec fn spec_parse_timestamp(s: Seq<char>) -> Option<int>;

/// Relies on chrono's `FromStr` for `DateTime<Utc>` — which texts parse, and
/// to what instant, depends on the text alone — and on
/// `DateTime::timestamp_millis`.
#[verifier::external_body]
pub(crate) fn parse_timestamp(s: &str) -> (r: Option<i64>)
    ensures
        match r {
            Some(t) => spec_parse_timestamp(s@) == Some(t as int),
            None => spec_parse_timestamp(s@) is None,
        },
{
    match s.parse::<chrono::DateTime<chrono::Utc>>() {
        Ok(d) => Some(d.timestamp_millis()),
        Err(_) => None,
    }
}

/// No segment of the event type holds a `/`: exactly the types whose
/// canonical text parses back to them.
pub open spec fn type_slash_free(m: EventTypeModel) -> bool {
    &&& forall|k: int| 0 <= k < m.group.len() ==> m.group[k] != '/'
    &&& forall|k: int| 0 <= k < m.name.len() ==> m.name[k] != '/'
    &&& forall|k: int| 0 <= k < m.version.len() ==> m.version[k] != '/'
}

/// Round-trip: rendering a type whose segments hold no `/` and parsing the
/// result yields the type back.
pub proof fn lemma_type_round_trip(m: EventTypeModel)
    requires
        type_slash_free(m),
    ensures
        spec_parse_type(spec_type_text(m)) == Some(m),
{
    let e = Seq::<char>::empty();
    assert(e + m.group =~= m.group);
    lemma_split_append_nonslash(e, m.group);
    assert(split_slash(e) =~= seq![e]);
    assert(split_slash(m.group) =~= seq![m.group]) by {
        assert(split_slash(e).update(0, split_slash(e).last() + m.group) =~= seq![e + m.group]);
        assert(e + m.group =~= m.group);
    }
    lemma_split_append_slash(m.group);
    let s1 = m.group + seq!['/'];
    assert(split_slash(s1) =~= seq![m.group, e]);
    lemma_split_append_nonslash(s1, m.name);
    let s2 = s1 + m.name;
    assert(split_slash(s2) =~= seq![m.group, e + m.name]);
    assert(e + m.name =~= m.name);
    lemma_split_append_slash(s2);
    let s3 = s2 + seq!['/'];
    assert(split_slash(s3) =~= seq![m.group, m.name, e]);
    lemma_split_append_nonslash(s3, m.version);
    let s4 = s3 + m.version;
    assert(split_slash(s4) =~= seq![m.group, m.name, e + m.version]);
    assert(e + m.version =~= m.version);
    assert(s4 =~= spec_type_text(m));
    assert(split_slash(spec_type_text(m)) =~= seq![m.group, m.name, m.version]);
    assert(spec_parse_type(spec_type_text(m)) == Some(EventTypeModel {
        group: m.group,
        name: m.name,
        version: m.version,
    }));
    assert(EventTypeModel { group: m.group, name: m.name, version: m.version } == m);
}

} // verus!
