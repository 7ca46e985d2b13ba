//! What the primitives report, and to whom.

use vstd::prelude::*;

verus! {

/// Something worth reporting.
pub enum Event {
    /// Attempt number `attempt` of `op` has failed and another one follows.
    Retry {
        /// The name of the operation.
        op: Seq<char>,
        /// The attempt that failed, counted from one.
        attempt: u32,
    },
    /// The circuit of `op` has opened.
    CircuitOpen {
        /// The name of the operation.
        op: Seq<char>,
    },
    /// The circuit of `op` has closed.
    CircuitClose {
        /// The name of the operation.
        op: Seq<char>,
    },
}

/// An observer of retries and of circuit transitions, supplied by the caller.
///
/// Where several runs report to one observer, implement this for a shared reference to it: every
/// run then has a reference of its own.
pub trait Instrumentation: Send + Sync {
    /// Whether this observer may turn into `after` when it is told of `event`. An observer that
    /// says nothing of itself may turn into anything.
    open spec fn observes(&self, event: Event, after: &Self) -> bool {
        true
    }

    /// Attempt number `attempt` of `op` has failed and another one follows.
    fn record_retry(&mut self, op: &str, attempt: u32)
        ensures
            old(self).observes(Event::Retry { op: op@, attempt }, &*final(self)),
    ;

    /// The circuit of `op` has opened.
    fn record_circuit_open(&mut self, op: &str)
        ensures
            old(self).observes(Event::CircuitOpen { op: op@ }, &*final(self)),
    ;

    /// The circuit of `op` has closed.
    fn record_circuit_close(&mut self, op: &str)
        ensures
            old(self).observes(Event::CircuitClose { op: op@ }, &*final(self)),
    ;
}

/// Whether an observer goes through these states when it is told of these events one by one.
pub open spec fn told<I: Instrumentation>(states: Seq<I>, events: Seq<Event>) -> bool {
    &&& states.len() == events.len() + 1
    &&& forall|i: int|
        0 <= i < events.len() ==> states[i].observes(#[trigger] events[i], &states[i + 1])
}

/// Whether being told of exactly these events, in this order, may turn `before` into `after`.
pub open spec fn observed<I: Instrumentation>(before: I, events: Seq<Event>, after: I) -> bool {
    exists|states: Seq<I>| #[trigger]
        told(states, events) && states.first() == before && states.last() == after
}

/// Nothing to be told of.
pub(crate) proof fn lemma_observed_nothing<I: Instrumentation>(observer: I)
    ensures
        observed(observer, Seq::<Event>::empty(), observer),
{
    assert(told(seq![observer], Seq::<Event>::empty()));
}

/// One more event.
pub(crate) proof fn lemma_observed_push<I: Instrumentation>(
    before: I,
    events: Seq<Event>,
    last: I,
    event: Event,
    after: I,
)
    requires
        observed(before, events, last),
        last.observes(event, &after),
    ensures
        observed(before, events.push(event), after),
{
    let states = choose|states: Seq<I>| #[trigger]
        told(states, events) && states.first() == before && states.last() == last;
    let more = states.push(after);
    assert forall|i: int| 0 <= i < events.push(event).len() implies more[i].observes(
        #[trigger] events.push(event)[i],
        &more[i + 1],
    ) by {
        if i < events.len() {
            assert(events.push(event)[i] == events[i]);
        }
    }
    assert(told(more, events.push(event)));
}

/// An observer that ignores everything it is told.
#[derive(Debug, Default, Clone, Copy)]
pub struct NoopInstrumentation;

impl Instrumentation for NoopInstrumentation {
    open spec fn observes(&self, event: Event, after: &Self) -> bool {
        after == self
    }

    fn record_retry(&mut self, _op: &str, _attempt: u32) {
    }

    fn record_circuit_open(&mut self, _op: &str) {
    }

    fn record_circuit_close(&mut self, _op: &str) {
    }
}

/// An observer is told of each event as the one before it has left it: of the first as `before`,
/// and of the others as what the first one has turned it into. Told of nothing it is unchanged.
pub proof fn law_events_follow_each_other<I: Instrumentation>(
    before: I,
    events: Seq<Event>,
    after: I,
)
    requires
        observed(before, events, after),
    ensures
        events.len() == 0 ==> after == before,
        events.len() > 0 ==> exists|next: I| #[trigger]
            before.observes(events[0], &next) && observed(next, events.skip(1), after),
{
    let states = choose|states: Seq<I>| #[trigger]
        told(states, events) && states.first() == before && states.last() == after;
    if events.len() > 0 {
        let rest = states.skip(1);
        assert forall|i: int| 0 <= i < events.skip(1).len() implies rest[i].observes(
            #[trigger] events.skip(1)[i],
            &rest[i + 1],
        ) by {
            assert(events.skip(1)[i] == events[i + 1]);
        }
        assert(told(rest, events.skip(1)));
        assert(states[0].observes(events[0], &states[1]));
    }
}

} // verus!
