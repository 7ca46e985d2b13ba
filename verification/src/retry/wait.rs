//! Backoff strategies and the waits that a retry asks for.

use vstd::prelude::*;
use vstd::string::*;

verus! {

/// How the delay changes from retry to retry, relative to the base delay.
#[non_exhaustive]
#[derive(Debug, Clone, Copy, PartialEq, Eq, Structural)]
pub enum Backoff {
    /// Every retry waits for the base delay.
    Constant,
    /// `min(base * factor^(attempt-1), max_delay_ms)`, where `attempt` counts the failures so
    /// far.
    Exponential {
        /// The factor; zero counts as one, which is a constant delay.
        factor: u32,
        /// The upper bound, in milliseconds.
        max_delay_ms: u64,
    },
}

impl Default for Backoff {
    fn default() -> (backoff: Backoff)
        ensures
            backoff == Backoff::Constant,
    {
        Backoff::Constant
    }
}

/// How to wait before a retry, supplied by the caller. Waiting for zero milliseconds should do
/// nothing.
pub trait Wait: Send + Sync {
    /// Whether waiting for `ms` milliseconds may turn this wait into `after`. A wait that says
    /// nothing of itself may turn into anything.
    open spec fn waits(&self, ms: u64, after: &Self) -> bool {
        true
    }

    /// Waits for `ms` milliseconds.
    fn wait_ms(&mut self, ms: u64)
        ensures
            old(self).waits(ms, &*final(self)),
    ;
}

/// Whether a wait goes through these states when it is asked for these delays one by one.
pub open spec fn asked<W: Wait>(states: Seq<W>, delays: Seq<u64>) -> bool {
    &&& states.len() == delays.len() + 1
    &&& forall|i: int|
        0 <= i < delays.len() ==> states[i].waits(#[trigger] delays[i], &states[i + 1])
}

/// Whether waiting for exactly these delays, in this order, may turn `before` into `after`.
pub open spec fn waited<W: Wait>(before: W, delays: Seq<u64>, after: W) -> bool {
    exists|states: Seq<W>| #[trigger]
        asked(states, delays) && states.first() == before && states.last() == after
}

/// No delay.
pub(crate) proof fn lemma_waited_nothing<W: Wait>(wait: W)
    ensures
        waited(wait, Seq::<u64>::empty(), wait),
{
    assert(asked(seq![wait], Seq::<u64>::empty()));
}

/// One more delay.
pub(crate) proof fn lemma_waited_push<W: Wait>(
    before: W,
    delays: Seq<u64>,
    last: W,
    ms: u64,
    after: W,
)
    requires
        waited(before, delays, last),
        last.waits(ms, &after),
    ensures
        waited(before, delays.push(ms), after),
{
    let states = choose|states: Seq<W>| #[trigger]
        asked(states, delays) && states.first() == before && states.last() == last;
    let more = states.push(after);
    assert forall|i: int| 0 <= i < delays.push(ms).len() implies more[i].waits(
        #[trigger] delays.push(ms)[i],
        &more[i + 1],
    ) by {
        if i < delays.len() {
            assert(delays.push(ms)[i] == delays[i]);
        }
    }
    assert(asked(more, delays.push(ms)));
}

/// Does not wait at all.
#[derive(Debug, Default, Clone, Copy)]
pub struct NoWait;

impl Wait for NoWait {
    open spec fn waits(&self, ms: u64, after: &Self) -> bool {
        after == self
    }

    fn wait_ms(&mut self, _ms: u64) {
    }
}

/// Does not wait either, but keeps every delay it was asked for.
pub struct RecordingWait {
    delays: Vec<u64>,
}

impl View for RecordingWait {
    type V = Seq<u64>;

    closed spec fn view(&self) -> Seq<u64> {
        self.delays@
    }
}

impl Default for RecordingWait {
    fn default() -> (wait: RecordingWait)
        ensures
            wait@ == Seq::<u64>::empty(),
    {
        RecordingWait { delays: Vec::new() }
    }
}

impl RecordingWait {
    /// A recorder with nothing in it.
    #[must_use]
    pub fn new() -> (wait: RecordingWait)
        ensures
            wait@ == Seq::<u64>::empty(),
    {
        RecordingWait { delays: Vec::new() }
    }

    /// The delays so far, in milliseconds.
    #[must_use]
    pub fn delays(&self) -> (delays: Vec<u64>)
        ensures
            delays@ == self@,
    {
        self.delays.clone()
    }

    /// The debug form of a recorder with these delays. It shows them as they lie behind a lock that
    /// nobody holds and that is not poisoned, so that a recorder looks the same whether or not
    /// threads share it.
    pub open spec fn form(delays: Seq<u64>) -> Seq<char> {
        "RecordingWait { delays: Mutex { data: ["@ + crate::text::decimals(delays)
            + "], poisoned: false, .. } }"@
    }

    /// The debug form.
    #[must_use]
    pub fn debug_string(&self) -> (form: String)
        ensures
            form@ == RecordingWait::form(self@),
    {
        let mut form: String = String::from_str("RecordingWait { delays: Mutex { data: [");
        crate::text::push_decimals(&mut form, &self.delays);
        form.append("], poisoned: false, .. } }");
        form
    }
}

impl Wait for RecordingWait {
    open spec fn waits(&self, ms: u64, after: &Self) -> bool {
        after@ == self@.push(ms)
    }

    fn wait_ms(&mut self, ms: u64)
        ensures
            final(self)@ == old(self)@.push(ms),
    {
        self.delays.push(ms);
    }
}

/// A recorder ends up with exactly the delays it was asked for, after those it had.
pub proof fn law_recorder_keeps_every_delay(
    before: RecordingWait,
    delays: Seq<u64>,
    after: RecordingWait,
)
    requires
        waited(before, delays, after),
    ensures
        after@ == before@ + delays,
{
    let states = choose|states: Seq<RecordingWait>| #[trigger]
        asked(states, delays) && states.first() == before && states.last() == after;
    lemma_recorded_so_far(states, delays, delays.len() as int);
    assert(delays.take(delays.len() as int) =~= delays);
}

proof fn lemma_recorded_so_far(states: Seq<RecordingWait>, delays: Seq<u64>, count: int)
    requires
        asked(states, delays),
        0 <= count <= delays.len(),
    ensures
        states[count]@ == states[0]@ + delays.take(count),
    decreases count,
{
    if count > 0 {
        lemma_recorded_so_far(states, delays, count - 1);
        let ms = delays[count - 1];
        assert(states[count]@ == states[count - 1]@.push(ms));
        assert(delays.take(count) =~= delays.take(count - 1).push(ms));
    }
    assert(states[count]@ =~= states[0]@ + delays.take(count));
}

/// Each delay is asked of what the one before it has left: the first one of `before`, and the
/// others of what the first one has turned it into. Where no delay was asked for nothing has
/// changed.
pub proof fn law_delays_follow_each_other<W: Wait>(before: W, delays: Seq<u64>, after: W)
    requires
        waited(before, delays, after),
    ensures
        delays.len() == 0 ==> after == before,
        delays.len() > 0 ==> exists|next: W| #[trigger]
            before.waits(delays[0], &next) && waited(next, delays.skip(1), after),
{
    let states = choose|states: Seq<W>| #[trigger]
        asked(states, delays) && states.first() == before && states.last() == after;
    if delays.len() > 0 {
        let rest = states.skip(1);
        assert forall|i: int| 0 <= i < delays.skip(1).len() implies rest[i].waits(
            #[trigger] delays.skip(1)[i],
            &rest[i + 1],
        ) by {
            assert(delays.skip(1)[i] == delays[i + 1]);
        }
        assert(asked(rest, delays.skip(1)));
        assert(states[0].waits(delays[0], &states[1]));
    }
}

/// Asked for one delay, whatever it is, a recorder keeps just that one more, at the end.
pub proof fn law_one_delay(recorder: RecordingWait, after: RecordingWait, ms: u64)
    ensures
        recorder.waits(ms, &after) ==> after@.len() == recorder@.len() + 1,
        recorder.waits(ms, &after) ==> after@.last() == ms,
        recorder.waits(ms, &after) ==> after@.drop_last() == recorder@,
{
    assert(recorder@.push(ms).drop_last() =~= recorder@);
}

/// A recorder shows its delays between brackets, as they lie behind a lock.
pub proof fn law_recorder_form(delays: Seq<u64>)
    ensures
        RecordingWait::form(delays) == "RecordingWait { delays: Mutex { data: ["@
            + crate::text::decimals(delays) + "], poisoned: false, .. } }"@,
{
}

} // verus!
