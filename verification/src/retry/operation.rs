//! What is retried, and the account that is kept of a run.

use super::wait::Wait;
use crate::error::ResiliencxResult;
use crate::instrumentation::{Event, Instrumentation};
use vstd::prelude::*;

verus! {

/// Something that can be tried again and again. Every function that takes nothing and returns a
/// [`ResiliencxResult`] is one; of a function a contract can tell what it returns, but not what it
/// has become by being called.
pub trait Callable<R> {
    /// Whether this may be called now.
    open spec fn ready(&self) -> bool {
        true
    }

    /// Whether one call may return `outcome` and turn this into `after`. One that says nothing of
    /// itself may return anything and turn into anything.
    open spec fn gives(&self, outcome: ResiliencxResult<R>, after: &Self) -> bool {
        true
    }

    /// Makes one call.
    fn invoke(&mut self) -> (outcome: ResiliencxResult<R>)
        requires
            old(self).ready(),
        ensures
            old(self).gives(outcome, &*final(self)),
            final(self).ready(),
    ;
}

impl<R, F: FnMut() -> ResiliencxResult<R>> Callable<R> for F {
    open spec fn ready(&self) -> bool {
        self.requires(())
    }

    open spec fn gives(&self, outcome: ResiliencxResult<R>, after: &Self) -> bool {
        self.ensures((), outcome) && after == self
    }

    fn invoke(&mut self) -> (outcome: ResiliencxResult<R>) {
        self()
    }
}

/// Whether a callable goes through these states when it gives these outcomes one by one.
pub open spec fn gave<R, C: Callable<R>>(
    states: Seq<C>,
    outcomes: Seq<ResiliencxResult<R>>,
) -> bool {
    &&& states.len() == outcomes.len() + 1
    &&& forall|i: int|
        0 <= i < outcomes.len() ==> states[i].gives(#[trigger] outcomes[i], &states[i + 1])
}

/// Whether exactly as many calls as there are outcomes, each with its outcome and in this order,
/// may turn `before` into `after`.
pub open spec fn called<R, C: Callable<R>>(
    before: C,
    outcomes: Seq<ResiliencxResult<R>>,
    after: C,
) -> bool {
    exists|states: Seq<C>| #[trigger]
        gave(states, outcomes) && states.first() == before && states.last() == after
}

/// No call.
pub(crate) proof fn lemma_called_nothing<R, C: Callable<R>>(callee: C)
    ensures
        called(callee, Seq::<ResiliencxResult<R>>::empty(), callee),
{
    assert(gave(seq![callee], Seq::<ResiliencxResult<R>>::empty()));
}

/// One more call.
pub(crate) proof fn lemma_called_push<R, C: Callable<R>>(
    before: C,
    outcomes: Seq<ResiliencxResult<R>>,
    last: C,
    outcome: ResiliencxResult<R>,
    after: C,
)
    requires
        called(before, outcomes, last),
        last.gives(outcome, &after),
    ensures
        called(before, outcomes.push(outcome), after),
{
    let states = choose|states: Seq<C>| #[trigger]
        gave(states, outcomes) && states.first() == before && states.last() == last;
    let more = states.push(after);
    assert forall|i: int| 0 <= i < outcomes.push(outcome).len() implies more[i].gives(
        #[trigger] outcomes.push(outcome)[i],
        &more[i + 1],
    ) by {
        if i < outcomes.len() {
            assert(outcomes.push(outcome)[i] == outcomes[i]);
        }
    }
    assert(gave(more, outcomes.push(outcome)));
}

/// Each call starts from what the one before it has left: the first one from `before`, and the
/// others from what the first one has turned it into. Where there was no call nothing has changed.
pub proof fn law_calls_follow_each_other<R, C: Callable<R>>(
    before: C,
    outcomes: Seq<ResiliencxResult<R>>,
    after: C,
)
    requires
        called(before, outcomes, after),
    ensures
        outcomes.len() == 0 ==> after == before,
        outcomes.len() > 0 ==> exists|next: C| #[trigger]
            before.gives(outcomes[0], &next) && called(next, outcomes.skip(1), after),
{
    let states = choose|states: Seq<C>| #[trigger]
        gave(states, outcomes) && states.first() == before && states.last() == after;
    if outcomes.len() > 0 {
        let rest = states.skip(1);
        assert forall|i: int| 0 <= i < outcomes.skip(1).len() implies rest[i].gives(
            #[trigger] outcomes.skip(1)[i],
            &rest[i + 1],
        ) by {
            assert(outcomes.skip(1)[i] == outcomes[i + 1]);
        }
        assert(gave(rest, outcomes.skip(1)));
        assert(states[0].gives(outcomes[0], &states[1]));
    }
}

/// A function keeps no state that a contract could tell of: however often it was called, it is
/// still the same function, and every outcome is one that it may give.
pub proof fn law_functions_stay_the_same<R, F: FnMut() -> ResiliencxResult<R>>(
    before: F,
    outcomes: Seq<ResiliencxResult<R>>,
    after: F,
)
    requires
        called(before, outcomes, after),
    ensures
        after == before,
        forall|i: int| 0 <= i < outcomes.len() ==> before.ensures((), #[trigger] outcomes[i]),
{
    let states = choose|states: Seq<F>| #[trigger]
        gave(states, outcomes) && states.first() == before && states.last() == after;
    lemma_function_states(states, outcomes, outcomes.len() as int);
    assert forall|i: int| 0 <= i < outcomes.len() implies before.ensures(
        (),
        #[trigger] outcomes[i],
    ) by {
        lemma_function_states(states, outcomes, i);
    }
}

proof fn lemma_function_states<R, F: FnMut() -> ResiliencxResult<R>>(
    states: Seq<F>,
    outcomes: Seq<ResiliencxResult<R>>,
    i: int,
)
    requires
        gave(states, outcomes),
        0 <= i <= outcomes.len(),
    ensures
        states[i] == states[0],
    decreases i,
{
    if i > 0 {
        lemma_function_states(states, outcomes, i - 1);
        assert(states[i - 1].gives(outcomes[i - 1], &states[i]));
    }
}

/// Something that happens in a run, seen from outside.
pub enum Step<R> {
    /// A call was made, with this outcome.
    Called(ResiliencxResult<R>),
    /// The observer was told that attempt number `attempt` of `op` has failed and another follows.
    Reported {
        /// The name of the operation.
        op: Seq<char>,
        /// The attempt that failed, counted from one.
        attempt: u32,
    },
    /// The wait was asked for a delay.
    Waited {
        /// The delay in milliseconds.
        ms: u64,
    },
}

impl<R> Step<R> {
    /// The outcomes of the calls among these steps.
    pub open spec fn outcomes(steps: Seq<Step<R>>) -> Seq<ResiliencxResult<R>>
        decreases steps.len(),
    {
        if steps.len() == 0 {
            Seq::empty()
        } else {
            let before = Step::outcomes(steps.drop_last());
            match steps.last() {
                Step::Called(outcome) => before.push(outcome),
                _ => before,
            }
        }
    }
}

/// A step as it is entered in an account: with what it has turned the observer or the wait into.
pub enum Entry<R, I, W> {
    /// A call was made, with this outcome.
    Called(ResiliencxResult<R>),
    /// An observer was told that attempt number `attempt` of `op` has failed and another follows.
    Reported {
        /// The name of the operation.
        op: Seq<char>,
        /// The attempt that failed, counted from one.
        attempt: u32,
        /// The observer before it was told.
        observer: I,
        /// The observer after it was told.
        observer_after: I,
    },
    /// A wait was asked for a delay.
    Waited {
        /// The delay in milliseconds.
        ms: u64,
        /// The wait before it was asked.
        wait: W,
        /// The wait after it was asked.
        wait_after: W,
    },
}

impl<R, I: Instrumentation, W: Wait> Entry<R, I, W> {
    /// The step itself.
    pub open spec fn step(self) -> Step<R> {
        match self {
            Entry::Called(outcome) => Step::Called(outcome),
            Entry::Reported { op, attempt, .. } => Step::Reported { op, attempt },
            Entry::Waited { ms, .. } => Step::Waited { ms },
        }
    }

    /// The steps themselves.
    pub open spec fn steps(entries: Seq<Entry<R, I, W>>) -> Seq<Step<R>> {
        Seq::new(entries.len(), |i: int| entries[i].step())
    }

    /// Whether these entries lead from this observer and this wait to those: every report was made
    /// to the observer as the report before it had left it, every delay was asked of the wait as
    /// the delay before it had left it, and nothing else was done to either.
    pub open spec fn lead(
        entries: Seq<Entry<R, I, W>>,
        observer: I,
        wait: W,
        observer_after: I,
        wait_after: W,
    ) -> bool
        decreases entries.len(),
    {
        if entries.len() == 0 {
            observer_after == observer && wait_after == wait
        } else {
            let earlier = entries.drop_last();
            match entries.last() {
                Entry::Called(_) => Entry::lead(
                    earlier,
                    observer,
                    wait,
                    observer_after,
                    wait_after,
                ),
                Entry::Reported { op, attempt, observer: before, observer_after: after } => {
                    &&& after == observer_after
                    &&& before.observes(Event::Retry { op, attempt }, &after)
                    &&& Entry::lead(earlier, observer, wait, before, wait_after)
                },
                Entry::Waited { ms, wait: before, wait_after: after } => {
                    &&& after == wait_after
                    &&& before.waits(ms, &after)
                    &&& Entry::lead(earlier, observer, wait, observer_after, before)
                },
            }
        }
    }
}

/// One more entry is one more step.
pub(crate) proof fn lemma_steps_push<R, I: Instrumentation, W: Wait>(
    entries: Seq<Entry<R, I, W>>,
    entry: Entry<R, I, W>,
)
    ensures
        Entry::steps(entries.push(entry)) == Entry::steps(entries).push(entry.step()),
{
    assert(Entry::steps(entries.push(entry)) =~= Entry::steps(entries).push(entry.step()));
}

/// A run can be looked at between any two steps: at every moment the observer and the wait are
/// somewhere on their way, led there by the entries so far and led on by the others.
pub proof fn law_entries_lead_all_the_way<R, I: Instrumentation, W: Wait>(
    entries: Seq<Entry<R, I, W>>,
    count: int,
    observer: I,
    wait: W,
    observer_after: I,
    wait_after: W,
) -> (there: (I, W))
    requires
        Entry::lead(entries, observer, wait, observer_after, wait_after),
        0 <= count <= entries.len(),
    ensures
        Entry::lead(entries.take(count), observer, wait, there.0, there.1),
        Entry::lead(entries.skip(count), there.0, there.1, observer_after, wait_after),
    decreases entries.len(),
{
    if count == entries.len() {
        assert(entries.take(count) =~= entries);
        (observer_after, wait_after)
    } else {
        let earlier = entries.drop_last();
        let rest = entries.skip(count);
        assert(earlier.take(count) =~= entries.take(count));
        assert(rest.drop_last() =~= earlier.skip(count));
        assert(rest.last() == entries.last());
        match entries.last() {
            Entry::Called(_) => law_entries_lead_all_the_way(
                earlier,
                count,
                observer,
                wait,
                observer_after,
                wait_after,
            ),
            Entry::Reported { observer: before, .. } => law_entries_lead_all_the_way(
                earlier,
                count,
                observer,
                wait,
                before,
                wait_after,
            ),
            Entry::Waited { wait: before, .. } => law_entries_lead_all_the_way(
                earlier,
                count,
                observer,
                wait,
                observer_after,
                before,
            ),
        }
    }
}

/// A callable together with an account of the steps that were taken for its sake, in the order in
/// which they were taken.
///
/// A step enters the account only as it is taken: each method here makes one call, tells an
/// observer of one event or asks a wait for one delay, and enters just that, with the observer or
/// the wait as it was before and as it was left.
pub struct Operation<C, R, I, W> {
    callee: C,
    account: Ghost<Seq<Entry<R, I, W>>>,
}

impl<F: FnMut() -> ResiliencxResult<R>, R, I: Instrumentation, W: Wait> Operation<F, R, I, W> {
    /// The operation of a function, for which nothing has happened yet.
    pub fn new(f: F) -> (operation: Operation<F, R, I, W>)
        ensures
            operation.callee() == f,
            operation.callee().ready() == f.requires(()),
            operation.account() == Seq::<Entry<R, I, W>>::empty(),
    {
        Operation { callee: f, account: Ghost(Seq::empty()) }
    }
}

impl<C: Callable<R>, R, I: Instrumentation, W: Wait> Operation<C, R, I, W> {
    /// What is called.
    pub closed spec fn callee(self) -> C {
        self.callee
    }

    /// The account so far.
    pub closed spec fn account(self) -> Seq<Entry<R, I, W>> {
        self.account@
    }

    /// The steps so far.
    pub open spec fn steps(self) -> Seq<Step<R>> {
        Entry::steps(self.account())
    }

    /// The outcomes of the calls so far.
    pub open spec fn outcomes(self) -> Seq<ResiliencxResult<R>> {
        Step::outcomes(self.steps())
    }

    /// What has been entered in the account since the operation was as `before`.
    pub open spec fn account_since(self, before: Operation<C, R, I, W>) -> Seq<Entry<R, I, W>> {
        self.account().skip(before.account().len() as int)
    }

    /// The outcomes of the calls since the operation was as `before`.
    pub open spec fn outcomes_since(self, before: Operation<C, R, I, W>) -> Seq<
        ResiliencxResult<R>,
    > {
        self.outcomes().skip(before.outcomes().len() as int)
    }

    /// The operation of a callable, for which nothing has happened yet.
    pub fn of(callee: C) -> (operation: Operation<C, R, I, W>)
        ensures
            operation.callee() == callee,
            operation.account() == Seq::<Entry<R, I, W>>::empty(),
    {
        Operation { callee, account: Ghost(Seq::empty()) }
    }

    /// Makes one call.
    pub fn invoke(&mut self) -> (outcome: ResiliencxResult<R>)
        requires
            old(self).callee().ready(),
        ensures
            old(self).callee().gives(outcome, &final(self).callee()),
            final(self).callee().ready(),
            final(self).account() == old(self).account().push(Entry::Called(outcome)),
            final(self).steps() == old(self).steps().push(Step::Called(outcome)),
            final(self).outcomes() == old(self).outcomes().push(outcome),
    {
        let outcome: ResiliencxResult<R> = self.callee.invoke();
        let ghost entry = Entry::<R, I, W>::Called(outcome);
        self.account = Ghost(self.account@.push(entry));
        proof {
            lemma_steps_push(old(self).account@, entry);
            assert(self.steps().drop_last() =~= old(self).steps());
        }
        outcome
    }

    /// Tells an observer that attempt number `attempt` has failed and another one follows.
    pub fn report(&mut self, instrumentation: &mut I, op: &str, attempt: u32)
        ensures
            old(instrumentation).observes(
                Event::Retry { op: op@, attempt },
                &*final(instrumentation),
            ),
            final(self).callee() == old(self).callee(),
            final(self).account() == old(self).account().push(
                Entry::Reported {
                    op: op@,
                    attempt,
                    observer: *old(instrumentation),
                    observer_after: *final(instrumentation),
                },
            ),
            final(self).steps() == old(self).steps().push(Step::Reported { op: op@, attempt }),
            final(self).outcomes() == old(self).outcomes(),
    {
        let ghost before = *instrumentation;
        instrumentation.record_retry(op, attempt);
        let ghost entry = Entry::<R, I, W>::Reported {
            op: op@,
            attempt,
            observer: before,
            observer_after: *instrumentation,
        };
        self.account = Ghost(self.account@.push(entry));
        proof {
            lemma_steps_push(old(self).account@, entry);
            assert(self.steps().drop_last() =~= old(self).steps());
        }
    }

    /// Asks a wait for a delay.
    pub fn pause(&mut self, wait: &mut W, ms: u64)
        ensures
            old(wait).waits(ms, &*final(wait)),
            final(self).callee() == old(self).callee(),
            final(self).account() == old(self).account().push(
                Entry::Waited { ms, wait: *old(wait), wait_after: *final(wait) },
            ),
            final(self).steps() == old(self).steps().push(Step::Waited { ms }),
            final(self).outcomes() == old(self).outcomes(),
    {
        let ghost before = *wait;
        wait.wait_ms(ms);
        let ghost entry = Entry::<R, I, W>::Waited { ms, wait: before, wait_after: *wait };
        self.account = Ghost(self.account@.push(entry));
        proof {
            lemma_steps_push(old(self).account@, entry);
            assert(self.steps().drop_last() =~= old(self).steps());
        }
    }
}

} // verus!
