//! Processing stages: pluggable transforms applied to a batch of events.
//!
//! The function stage wraps a host-supplied mapping and applies it to each
//! event of the batch in input order, keeping the present results.

use crate::types::Event;
use vstd::prelude::*;

verus! {

/// The events a batch of optional results keeps: every present result, in
/// order, the absent ones dropped.
pub open spec fn filter_somes(outs: Seq<Option<Event>>) -> Seq<Event> {
    outs.filter_map(|o: Option<Event>| o)
}

/// A processing stage wrapping a pure host-supplied mapping from an event to
/// an optional replacement. Applying the stage maps every event of the batch
/// in input order and keeps the present results; it never fails.
pub struct FunctionProcessor<F> where F: Fn(Event) -> Option<Event> {
    func: F,
}

impl<F> FunctionProcessor<F> where F: Fn(Event) -> Option<Event> {
    /// The wrapped mapping.
    pub closed spec fn f(&self) -> F {
        self.func
    }

    /// Wrap a mapping as a processing stage.
    pub fn new(func: F) -> (r: Self)
        ensures
            r.f() == func,
    {
        FunctionProcessor { func }
    }

    /// Apply the stage to a batch: the result holds, in input order, the
    /// present values the mapping returned, one per input event for which it
    /// returned one.
    pub fn process(&self, events: Vec<Event>) -> (r: Vec<Event>)
        requires
            forall|i: int| 0 <= i < events@.len() ==> call_requires(self.f(), (events@[i],)),
        ensures
            exists|outs: Seq<Option<Event>>|
                {
                    &&& outs.len() == events@.len()
                    &&& (forall|i: int|
                        0 <= i < outs.len() ==> call_ensures(self.f(), (events@[i],), #[trigger] outs[i]))
                    &&& r@ == filter_somes(outs)
                },
    {
        let ghost orig = events@;
        let mut events = events;
        let mut out: Vec<Event> = Vec::new();
        let ghost mut outs: Seq<Option<Event>> = Seq::empty();
        while events.len() > 0
            invariant
                outs.len() + events@.len() == orig.len(),
                forall|j: int| 0 <= j < events@.len() ==> events@[j] == orig[outs.len() + j],
                forall|k: int| 0 <= k < orig.len() ==> call_requires(self.f(), (orig[k],)),
                forall|k: int|
                    0 <= k < outs.len() ==> call_ensures(self.f(), (orig[k],), #[trigger] outs[k]),
                out@ =~= filter_somes(outs),
            decreases events@.len(),
        {
            let e = events.remove(0);
            proof {
                assert(e == orig[outs.len() as int]);
            }
            let res = (self.func)(e);
            let ghost old_outs = outs;
            proof {
                outs = outs.push(res);
                assert(outs.drop_last() =~= old_outs);
            }
            match res {
                Some(e2) => out.push(e2),
                None => {},
            }
            proof {
                assert(out@ =~= filter_somes(outs));
            }
        }
        proof {
            assert(outs.len() == orig.len());
        }
        out
    }
}

/// Order and filter preservation of the function stage: when the mapping
/// behaves as a (mathematical) function `fs`, applying the stage to a batch
/// yields exactly `events.filter_map(fs)` — each input mapped in order, the
/// present results kept, the absent ones dropped, nothing reordered and
/// nothing duplicated.
pub proof fn lemma_function_stage_exact(
    events: Seq<Event>,
    outs: Seq<Option<Event>>,
    fs: spec_fn(Event) -> Option<Event>,
)
    requires
        outs.len() == events.len(),
        forall|i: int| 0 <= i < events.len() ==> outs[i] == fs(events[i]),
    ensures
        filter_somes(outs) == events.filter_map(fs),
    decreases events.len(),
{
    if events.len() > 0 {
        lemma_function_stage_exact(events.drop_last(), outs.drop_last(), fs);
        assert(outs.last() == fs(events.last()));
        assert(filter_somes(outs) == match outs.last() {
            Some(e) => filter_somes(outs.drop_last()) + seq![e],
            None => filter_somes(outs.drop_last()),
        });
    }
}

} // verus!
