//! The client-side publish path: configuration, subject derivation, the wire
//! encoding of events, and the batch publish bookkeeping with per-item
//! failure isolation.

pub mod error;
pub mod sqlite;
pub mod wire;

use crate::client::error::{Error, ErrorModel, Kind};
use crate::client::wire::{encode_event, spec_event_json};
use crate::text::{spec_decimal_text, u64_decimal};
use crate::types::{events_model, rfc3339_text, Event, EventModel};
use vstd::prelude::*;

verus! {

/// Configuration of a client connection: the host to connect to and an
/// optional subject prefix.
#[derive(Clone, Debug)]
pub struct Config {
    /// The host the transport connects to.
    pub host: String,
    /// When set, every subject published on is prefixed with `"<prefix>."`.
    pub prefix: Option<String>,
}

impl Default for Config {
    /// An empty host and no prefix.
    fn default() -> (r: Config)
        ensures
            r.host@ == Seq::<char>::empty(),
            r.prefix is None,
    {
        Config { host: String::new(), prefix: None }
    }
}

/// The transport subject for a stream: `"<prefix>.<name>"` when a prefix is
/// configured, the bare name otherwise.
pub open spec fn spec_subject(prefix: Option<Seq<char>>, name: Seq<char>) -> Seq<char> {
    match prefix {
        Some(p) => p + "."@ + name,
        None => name,
    }
}

/// Derive the transport subject a batch is published on.
pub fn derive_subject(prefix: &Option<String>, name: &str) -> (r: String)
    ensures
        r@ == spec_subject(match prefix {
            Some(p) => Some(p@),
            None => None,
        }, name@),
{
    match prefix {
        Some(p) => {
            let mut s = p.clone();
            s.append(".");
            s.append(name);
            s
        },
        None => String::from_str(name),
    }
}

/// A read predicate against the event store. Exactly one variant is active
/// per query; filters do not compose.
#[derive(Debug, Clone)]
pub enum EventFilter {
    /// No predicate: every event matches.
    All,
    /// Only events of the given type.
    ByType(crate::types::EventType),
    /// Only events about the given subject.
    ByObject(String),
    /// Only the event with the given identifier.
    ById(String),
}

/// Mathematical model of a [`BatchPublish`] in progress.
pub ghost struct BatchModel {
    pub subject: Seq<char>,
    pub events: Seq<EventModel>,
    pub next: int,
    pub failures: Seq<(EventModel, Seq<char>)>,
}

impl BatchModel {
    /// The delivery cursor never passes the end of the batch, and at most one
    /// failure can have been recorded per attempted event.
    pub open spec fn wf(self) -> bool {
        0 <= self.next <= self.events.len() && self.failures.len() <= self.next
    }
}

/// One batch publish call in progress: the subject, the events still to be
/// attempted, and the failures recorded so far.
///
/// Events are attempted strictly in input order, one at a time: the caller
/// encodes the current event, delivers the encoding, records the outcome, and
/// only then moves to the next event. A failure never aborts the batch; it is
/// recorded and the remaining events are still attempted.
#[derive(Debug)]
pub struct BatchPublish {
    subject: String,
    events: Vec<Event>,
    next: usize,
    failures: Vec<(Event, String)>,
}

impl View for BatchPublish {
    type V = BatchModel;

    closed spec fn view(&self) -> BatchModel {
        BatchModel {
            subject: self.subject@,
            events: events_model(self.events@),
            next: self.next as int,
            failures: self.failures@.map_values(|f: (Event, String)| (f.0@, f.1@)),
        }
    }
}

impl BatchPublish {
    /// Start a batch publish of the given events on the given subject.
    pub fn new(subject: String, events: Vec<Event>) -> (r: BatchPublish)
        ensures
            r@ == (BatchModel {
                subject: subject@,
                events: events_model(events@),
                next: 0,
                failures: Seq::empty(),
            }),
            r@.wf(),
    {
        let r = BatchPublish { subject, events, next: 0, failures: Vec::new() };
        proof {
            assert(r@.failures =~= Seq::<(EventModel, Seq<char>)>::empty());
        }
        r
    }

    /// The subject every event of this batch is delivered on.
    pub fn subject(&self) -> (r: &String)
        ensures
            r@ == self@.subject,
    {
        &self.subject
    }

    /// Whether every event of the batch has been attempted.
    pub fn done(&self) -> (r: bool)
        ensures
            r == (self@.next == self@.events.len()),
    {
        self.next == self.events.len()
    }

    /// How many events have been attempted so far.
    pub fn attempted(&self) -> (r: usize)
        ensures
            r == self@.next,
    {
        self.next
    }

    /// The wire encoding of the event to attempt next, or the reason it
    /// cannot be serialized.
    pub fn current_payload(&self) -> (r: Result<String, String>)
        requires
            self@.next < self@.events.len(),
        ensures
            match r {
                Ok(s) => rfc3339_text(self@.events[self@.next].timestamp) matches Some(ts)
                    && s@ == spec_event_json(self@.events[self@.next], ts),
                Err(m) => rfc3339_text(self@.events[self@.next].timestamp) is None
                    && m@ == "timestamp out of range"@,
            },
    {
        encode_event(&self.events[self.next])
    }

    /// Record the outcome of the current event's delivery attempt — or of its
    /// failed serialization — and move to the next event. An `Err` outcome
    /// adds one `(event, reason)` entry; an `Ok` outcome adds nothing.
    pub fn record(&mut self, outcome: Result<(), String>)
        requires
            old(self)@.wf(),
            old(self)@.next < old(self)@.events.len(),
        ensures
            final(self)@.wf(),
            final(self)@.subject == old(self)@.subject,
            final(self)@.events == old(self)@.events,
            final(self)@.next == old(self)@.next + 1,
            final(self)@.failures == (match outcome {
                Ok(()) => old(self)@.failures,
                Err(reason) => old(self)@.failures.push(
                    (old(self)@.events[old(self)@.next], reason@),
                ),
            }),
    {
        let ghost old_model = self@;
        let n = self.events.len();
        match outcome {
            Ok(()) => {},
            Err(reason) => {
                let ghost reason_model = reason@;
                let ghost old_failures = self.failures@;
                let event = self.events[self.next].duplicate();
                self.failures.push((event, reason));
                proof {
                    let target = old_model.failures.push(
                        (old_model.events[old_model.next], reason_model),
                    );
                    assert(old_model.failures.len() == old_failures.len());
                    assert(self.failures@ == old_failures.push(self.failures@.last()));
                    assert forall|k: int| 0 <= k < self.failures@.len() implies self@.failures[k]
                        == target[k] by {
                        if k < self.failures@.len() - 1 {
                            assert(self.failures@[k] == old_failures[k]);
                        } else {
                            assert(self.failures@[k].0@ == old_model.events[old_model.next]);
                            assert(self.failures@[k].1@ == reason_model);
                        }
                    }
                    assert(self@.failures =~= target);
                }
            },
        }
        proof {
            assert(self.next < n);
        }
        self.next = self.next + 1;
        proof {
            assert(self@.events =~= old_model.events);
        }
    }

    /// Close a fully attempted batch: how many events were attempted, and the
    /// `(event, reason)` pairs of those that failed, in input order.
    pub fn into_outcome(self) -> (r: PublishOutcome)
        requires
            self@.next == self@.events.len(),
        ensures
            r@ == (OutcomeModel { attempted: self@.next, failures: self@.failures }),
    {
        let attempted = self.next;
        PublishOutcome { attempted, failures: self.failures }
    }
}

/// Start a batch publish of the given events to the named stream: the
/// subject is derived from the configured prefix, and every event will be
/// attempted in input order.
pub fn begin_publish(prefix: &Option<String>, subject: &str, events: Vec<Event>) -> (r:
    BatchPublish)
    ensures
        r@ == (BatchModel {
            subject: spec_subject(
                match prefix {
                    Some(p) => Some(p@),
                    None => None,
                },
                subject@,
            ),
            events: events_model(events@),
            next: 0,
            failures: Seq::empty(),
        }),
        r@.wf(),
{
    let full = derive_subject(prefix, subject);
    BatchPublish::new(full, events)
}

/// Mathematical model of a [`PublishOutcome`].
pub ghost struct OutcomeModel {
    pub attempted: int,
    pub failures: Seq<(EventModel, Seq<char>)>,
}

/// The result of one batch publish call: how many events were attempted and
/// which of them could not be delivered, with the reason for each.
#[derive(Debug)]
pub struct PublishOutcome {
    /// How many delivery attempts were made.
    pub attempted: usize,
    /// One `(event, reason)` pair per failed event, in input order.
    pub failures: Vec<(Event, String)>,
}

impl View for PublishOutcome {
    type V = OutcomeModel;

    open spec fn view(&self) -> OutcomeModel {
        OutcomeModel {
            attempted: self.attempted as int,
            failures: self.failures@.map_values(|f: (Event, String)| (f.0@, f.1@)),
        }
    }
}

/// The message of an aggregated send failure, naming the failure count.
pub open spec fn spec_send_message(n: int) -> Seq<char> {
    "failed to publish "@ + spec_decimal_text(n) + " events"@
}

/// The reasons of an outcome's failures, in input order.
pub open spec fn spec_reasons(failures: Seq<(EventModel, Seq<char>)>) -> Seq<Seq<char>> {
    failures.map_values(|f: (EventModel, Seq<char>)| f.1)
}

impl PublishOutcome {
    /// Turn the outcome into the result of the batch publish call: success
    /// exactly where no event failed, and otherwise a single `Send` error
    /// whose message names the failure count and whose related messages are
    /// the per-event reasons, in input order.
    pub fn into_result(&self) -> (r: Result<(), Error>)
        ensures
            match r {
                Ok(()) => self@.failures.len() == 0,
                Err(e) => self@.failures.len() > 0 && e@ == (ErrorModel {
                    kind: Kind::Send,
                    message: spec_send_message(self@.failures.len() as int),
                    related_messages: Some(spec_reasons(self@.failures)),
                }),
            },
    {
        if self.failures.len() == 0 {
            proof {
                assert(self@.failures =~= Seq::<(EventModel, Seq<char>)>::empty());
            }
            return Ok(());
        }
        let mut message = String::from_str("failed to publish ");
        let count = u64_decimal(self.failures.len() as u64);
        message.append(count.as_str());
        message.append(" events");
        let mut reasons: Vec<String> = Vec::new();
        let mut i: usize = 0;
        while i < self.failures.len()
            invariant
                i <= self.failures.len(),
                reasons@.map_values(|m: String| m@) =~= spec_reasons(self@.failures).take(i as int),
            decreases self.failures.len() - i,
        {
            let ghost old_reasons = reasons@;
            reasons.push(self.failures[i].1.clone());
            i = i + 1;
            proof {
                let all = spec_reasons(self@.failures);
                assert(old_reasons.map_values(|m: String| m@) == all.take(i as int - 1));
                assert(old_reasons.map_values(|m: String| m@).len() == old_reasons.len());
                assert(old_reasons.len() == i as int - 1);
                assert(reasons@ == old_reasons.push(reasons@.last()));
                assert(reasons@.last()@ == self@.failures[i as int - 1].1);
                assert forall|k: int| 0 <= k < i as int implies reasons@.map_values(
                    |m: String| m@,
                )[k] == all.take(i as int)[k] by {
                    if k < i as int - 1 {
                        assert(reasons@[k] == old_reasons[k]);
                        assert(old_reasons.map_values(|m: String| m@)[k] == all.take(
                            i as int - 1,
                        )[k]);
                    }
                }
                assert(reasons@.map_values(|m: String| m@) =~= all.take(i as int));
            }
        }
        proof {
            assert(spec_reasons(self@.failures).take(self@.failures.len() as int) =~= spec_reasons(
                self@.failures,
            ));
            assert(message@ =~= spec_send_message(self@.failures.len() as int));
        }
        Err(Error::new_with_related(Kind::Send, message, reasons))
    }
}

/// The failures a fully attempted batch accumulates, given the delivery
/// outcome of every event: one `(event, reason)` entry per outcome that
/// carried a reason, in input order.
pub open spec fn spec_failures(
    events: Seq<EventModel>,
    outcomes: Seq<Option<Seq<char>>>,
) -> Seq<(EventModel, Seq<char>)>
    decreases outcomes.len(),
{
    if outcomes.len() == 0 || events.len() != outcomes.len() {
        Seq::empty()
    } else {
        let rest = spec_failures(events.drop_last(), outcomes.drop_last());
        match outcomes.last() {
            Some(reason) => rest.push((events.last(), reason)),
            None => rest,
        }
    }
}

/// How many of the delivery outcomes carried a failure reason.
pub open spec fn count_failures(outcomes: Seq<Option<Seq<char>>>) -> nat
    decreases outcomes.len(),
{
    if outcomes.len() == 0 {
        0
    } else {
        count_failures(outcomes.drop_last()) + (if outcomes.last() is Some { 1nat } else { 0nat })
    }
}

/// Partial-failure isolation: when every event of a batch has been attempted
/// and its outcome recorded, the accumulated failures hold exactly one entry
/// per failed delivery — so the batch as a whole fails precisely when some
/// event failed, with as many reasons as failed events.
pub proof fn lemma_partial_failure_isolation(
    events: Seq<EventModel>,
    outcomes: Seq<Option<Seq<char>>>,
)
    requires
        events.len() == outcomes.len(),
    ensures
        spec_failures(events, outcomes).len() == count_failures(outcomes),
        count_failures(outcomes) == 0 <==> (forall|i: int|
            0 <= i < outcomes.len() ==> outcomes[i] is None),
    decreases outcomes.len(),
{
    if outcomes.len() > 0 {
        lemma_partial_failure_isolation(events.drop_last(), outcomes.drop_last());
        if count_failures(outcomes) == 0 {
            assert(forall|i: int| 0 <= i < outcomes.len() - 1 ==> outcomes.drop_last()[i]
                == outcomes[i]);
        }
        if forall|i: int| 0 <= i < outcomes.len() ==> outcomes[i] is None {
            assert(forall|i: int| 0 <= i < outcomes.len() - 1 ==> outcomes.drop_last()[i]
                is None);
        }
    }
}

/// Feeding one more outcome to a batch extends the accumulated failures the
/// same way [`BatchPublish::record`] does.
pub proof fn lemma_spec_failures_step(
    events: Seq<EventModel>,
    outcomes: Seq<Option<Seq<char>>>,
    event: EventModel,
    outcome: Option<Seq<char>>,
)
    requires
        events.len() == outcomes.len(),
    ensures
        spec_failures(events.push(event), outcomes.push(outcome)) == (match outcome {
            Some(reason) => spec_failures(events, outcomes).push((event, reason)),
            None => spec_failures(events, outcomes),
        }),
{
    assert(events.push(event).drop_last() =~= events);
    assert(outcomes.push(outcome).drop_last() =~= outcomes);
}

} // verus!
