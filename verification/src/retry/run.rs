//! What a run of retries is: which outcomes it goes through and how it ends.

use super::operation::{Callable, Entry, Operation, Step};
use super::{RetryConfig, Wait};
use crate::budget::RetryBudget;
use crate::error::{ErrorKind, ErrorView, ResiliencxResult};
use crate::instrumentation::{Event, Instrumentation};
use vstd::prelude::*;

verus! {

impl RetryConfig {
    /// Whether attempt number `attempt`, having ended like this, calls for another one: it failed
    /// for a passing reason and there are attempts left.
    pub open spec fn wants_retry<R>(self, outcome: ResiliencxResult<R>, attempt: int) -> bool {
        outcome matches Err(error) && error@.retryable() && attempt < self.max_attempts
    }

    /// The refusal of a configuration that allows no attempt at all.
    pub open spec fn no_attempts() -> ErrorView {
        ErrorView::plain(ErrorKind::Invalid, "max_attempts 必须大于或等于 1"@)
    }
}

/// What decides how long a run of retries goes on.
pub struct RetryRun {
    /// How often to try and how long to wait.
    pub config: RetryConfig,
    /// The seed of the jitter.
    pub jitter_seed: u64,
    /// How many retries the budget allows; none where there is no budget.
    pub tokens: Option<nat>,
}

impl RetryRun {
    /// A run with an optional budget.
    pub open spec fn new(
        config: RetryConfig,
        jitter_seed: u64,
        budget: Option<&mut RetryBudget>,
    ) -> RetryRun {
        RetryRun {
            config,
            jitter_seed,
            tokens: match budget {
                Some(budget) => Some(budget@.remaining),
                None => None,
            },
        }
    }

    /// Whether the budget, if there is one, has a token for retry number `retry`.
    pub open spec fn grants(self, retry: int) -> bool {
        self.tokens matches Some(tokens) ==> retry <= tokens
    }

    /// Whether another attempt follows attempt number `attempt`, having ended like this.
    pub open spec fn goes_on<R>(self, outcome: ResiliencxResult<R>, attempt: int) -> bool {
        self.config.wants_retry(outcome, attempt) && self.grants(attempt)
    }

    /// Whether these are all the outcomes of one run: each but the last is followed by another
    /// attempt, the last is not, and there are none only where no attempt is allowed.
    pub open spec fn complete<R>(self, outcomes: Seq<ResiliencxResult<R>>) -> bool {
        if self.config.max_attempts == 0 {
            outcomes.len() == 0
        } else {
            &&& outcomes.len() > 0
            &&& forall|i: int|
                0 <= i < outcomes.len() - 1 ==> self.goes_on(#[trigger] outcomes[i], i + 1)
            &&& !self.goes_on(outcomes.last(), outcomes.len() as int)
        }
    }

    /// Whether a complete run with these outcomes returns `result`: the last outcome itself, or
    /// the refusal of the budget where only a token was missing.
    pub open spec fn gives<R>(
        self,
        outcomes: Seq<ResiliencxResult<R>>,
        result: ResiliencxResult<R>,
    ) -> bool {
        if outcomes.len() == 0 {
            result matches Err(error) && error@ == RetryConfig::no_attempts()
        } else if self.config.wants_retry(outcomes.last(), outcomes.len() as int) {
            result matches Err(error) && error@ == ErrorView::plain(
                ErrorKind::Unavailable,
                "重试预算已耗尽"@,
            )
        } else {
            result == outcomes.last()
        }
    }

    /// Whether a run may go through exactly these outcomes and return `result`.
    pub open spec fn ends<R>(
        self,
        outcomes: Seq<ResiliencxResult<R>>,
        result: ResiliencxResult<R>,
    ) -> bool {
        self.complete(outcomes) && self.gives(outcomes, result)
    }

    /// How many retries these outcomes took.
    pub open spec fn retries<R>(outcomes: Seq<ResiliencxResult<R>>) -> nat {
        if outcomes.len() == 0 {
            0
        } else {
            (outcomes.len() - 1) as nat
        }
    }

    /// What is reported of the first `retries` retries: the number of each attempt that failed.
    pub open spec fn reports(op: Seq<char>, retries: nat) -> Seq<Event> {
        Seq::new(retries, |i: int| Event::Retry { op, attempt: (i + 1) as u32 })
    }

    /// The delays before the first `retries` retries.
    pub open spec fn delays(self, retries: nat) -> Seq<u64> {
        Seq::new(retries, |i: int| self.config.delay((i + 1) as u32, self.jitter_seed) as u64)
    }

    /// Whether the observer is told of exactly these retries and the wait is asked for exactly
    /// their delays, in order.
    pub open spec fn shows<I: Instrumentation, W: Wait>(
        self,
        op: Seq<char>,
        retries: nat,
        observer: I,
        observer_after: I,
        wait: W,
        wait_after: W,
    ) -> bool {
        &&& crate::instrumentation::observed(observer, RetryRun::reports(op, retries), observer_after)
        &&& super::wait::waited(wait, self.delays(retries), wait_after)
    }

    /// The steps of attempts that were all retried: after each call its report, and after the
    /// report its delay.
    pub open spec fn retried<R>(
        self,
        op: Seq<char>,
        outcomes: Seq<ResiliencxResult<R>>,
    ) -> Seq<Step<R>>
        decreases outcomes.len(),
    {
        if outcomes.len() == 0 {
            Seq::empty()
        } else {
            let attempt = outcomes.len() as u32;
            self.retried(op, outcomes.drop_last()).push(Step::Called(outcomes.last())).push(
                Step::Reported { op, attempt },
            ).push(Step::Waited { ms: self.config.delay(attempt, self.jitter_seed) as u64 })
        }
    }

    /// The steps of a run with these outcomes: those of the attempts that were retried, and then
    /// the last call.
    pub open spec fn steps<R>(
        self,
        op: Seq<char>,
        outcomes: Seq<ResiliencxResult<R>>,
    ) -> Seq<Step<R>> {
        if outcomes.len() == 0 {
            Seq::empty()
        } else {
            self.retried(op, outcomes.drop_last()).push(Step::Called(outcomes.last()))
        }
    }

    /// Whether one run may turn the operation, the observer and the wait into what they are after
    /// it, and return `result`. The outcomes of the run are those that the operation has given
    /// since. There were exactly as many calls, in the order of the run's steps among the reports
    /// and the delays. These reports were made to this observer and these delays were asked of this
    /// wait, each at its place among the steps, and there were no others.
    pub open spec fn performed<C: Callable<R>, R, I: Instrumentation, W: Wait>(
        self,
        op: Seq<char>,
        result: ResiliencxResult<R>,
        operation: Operation<C, R, I, W>,
        operation_after: Operation<C, R, I, W>,
        observer: I,
        observer_after: I,
        wait: W,
        wait_after: W,
    ) -> bool {
        let outcomes = operation_after.outcomes_since(operation);
        let entries = operation_after.account_since(operation);
        &&& operation_after.outcomes() == operation.outcomes() + outcomes
        &&& operation_after.account() == operation.account() + entries
        &&& Entry::steps(entries) == self.steps(op, outcomes)
        &&& Entry::lead(entries, observer, wait, observer_after, wait_after)
        &&& super::operation::called(operation.callee(), outcomes, operation_after.callee())
        &&& self.ends(outcomes, result)
        &&& self.shows(
            op,
            RetryRun::retries(outcomes),
            observer,
            observer_after,
            wait,
            wait_after,
        )
    }
}

/// A run makes at most `max_attempts` attempts, and at most as many retries as the budget has
/// tokens.
pub proof fn law_attempts_are_bounded<R>(run: RetryRun, outcomes: Seq<ResiliencxResult<R>>)
    requires
        run.complete(outcomes),
    ensures
        outcomes.len() <= run.config.max_attempts,
        run.tokens matches Some(tokens) ==> RetryRun::retries(outcomes) <= tokens,
{
    if outcomes.len() > 1 {
        let i = outcomes.len() - 2;
        assert(run.goes_on(outcomes[i], i + 1));
    }
}

/// Only transient errors are retried: every attempt but the last failed for a passing reason.
pub proof fn law_only_transient_errors_are_retried<R>(
    run: RetryRun,
    outcomes: Seq<ResiliencxResult<R>>,
    i: int,
)
    requires
        run.complete(outcomes),
        0 <= i < outcomes.len() - 1,
    ensures
        outcomes[i] matches Err(error) && error@.retryable(),
{
    assert(run.goes_on(outcomes[i], i + 1));
}

/// The first success, and the first error that is not transient, ends the run and is its result.
pub proof fn law_final_outcomes_end_the_run<R>(
    run: RetryRun,
    outcomes: Seq<ResiliencxResult<R>>,
    result: ResiliencxResult<R>,
    i: int,
)
    requires
        run.ends(outcomes, result),
        0 <= i < outcomes.len(),
        outcomes[i] matches Err(error) ==> !error@.retryable(),
    ensures
        i == outcomes.len() - 1,
        result == outcomes[i],
{
    if i < outcomes.len() - 1 {
        assert(run.goes_on(outcomes[i], i + 1));
    }
}

/// Without a budget, an operation that keeps failing for passing reasons is called exactly
/// `max_attempts` times, and the last of its errors is returned.
pub proof fn law_persistent_failure_uses_every_attempt<R>(
    run: RetryRun,
    outcomes: Seq<ResiliencxResult<R>>,
    result: ResiliencxResult<R>,
)
    requires
        run.tokens is None,
        run.config.max_attempts >= 1,
        run.ends(outcomes, result),
        forall|i: int|
            0 <= i < outcomes.len() ==> (#[trigger] outcomes[i] matches Err(error)
                && error@.retryable()),
    ensures
        outcomes.len() == run.config.max_attempts,
        result == outcomes.last(),
{
    law_attempts_are_bounded(run, outcomes);
    let last = outcomes[outcomes.len() - 1];
    assert(last matches Err(error) && error@.retryable());
}

/// Within a budget that runs out first, an operation that keeps failing for passing reasons is
/// called once more than there are tokens, and the result is the budget's error and not one of
/// the operation's. With no token at all nothing is retried, reported or waited for.
pub proof fn law_exhausted_budget_ends_the_run<R>(
    run: RetryRun,
    outcomes: Seq<ResiliencxResult<R>>,
    result: ResiliencxResult<R>,
)
    requires
        run.tokens matches Some(tokens) && tokens + 1 < run.config.max_attempts,
        run.ends(outcomes, result),
        forall|i: int|
            0 <= i < outcomes.len() ==> (#[trigger] outcomes[i] matches Err(error)
                && error@.retryable()),
    ensures
        outcomes.len() == run.tokens->0 + 1,
        RetryRun::retries(outcomes) == run.tokens->0,
        result matches Err(error) && error@ == ErrorView::plain(
            ErrorKind::Unavailable,
            "重试预算已耗尽"@,
        ),
{
    law_attempts_are_bounded(run, outcomes);
    let last = outcomes[outcomes.len() - 1];
    assert(last matches Err(error) && error@.retryable());
}

/// What the operation does decides the run: two runs of the same kind that see the same outcomes
/// as long as both go on are one and the same.
pub proof fn law_outcomes_decide_the_run<R>(
    run: RetryRun,
    a: Seq<ResiliencxResult<R>>,
    b: Seq<ResiliencxResult<R>>,
)
    requires
        run.complete(a),
        run.complete(b),
        forall|i: int| 0 <= i < a.len() && i < b.len() ==> #[trigger] a[i] == b[i],
    ensures
        a == b,
{
    if a.len() < b.len() {
        let i = a.len() - 1;
        assert(a[i] == b[i]);
        assert(run.goes_on(b[i], i + 1));
    } else if b.len() < a.len() {
        let i = b.len() - 1;
        assert(a[i] == b[i]);
        assert(run.goes_on(a[i], i + 1));
    }
    assert(a =~= b);
}

/// Runs that share a budget one after the other make no more retries together than the budget had
/// tokens.
pub proof fn law_shared_budget_bounds_all_runs<R>(
    first: RetryRun,
    first_outcomes: Seq<ResiliencxResult<R>>,
    second: RetryRun,
    second_outcomes: Seq<ResiliencxResult<R>>,
    tokens: nat,
)
    requires
        first.tokens == Some(tokens),
        first.complete(first_outcomes),
        second.tokens == Some((tokens - RetryRun::retries(first_outcomes)) as nat),
        second.complete(second_outcomes),
    ensures
        RetryRun::retries(first_outcomes) + RetryRun::retries(second_outcomes) <= tokens,
{
    law_attempts_are_bounded(first, first_outcomes);
    law_attempts_are_bounded(second, second_outcomes);
}

/// Each retry is reported and then waited for before the next call: the steps of a run are its
/// calls in order, with the report of the failed attempt and then its delay between any two of
/// them, and nothing after the last. That the reports go to the run's own observer and the delays
/// to its own wait is [`law_observer_and_wait_keep_pace_with_the_calls`].
pub proof fn law_each_retry_is_reported_then_waited_for<R>(
    run: RetryRun,
    op: Seq<char>,
    outcomes: Seq<ResiliencxResult<R>>,
    i: int,
)
    requires
        run.complete(outcomes),
        0 <= i < outcomes.len(),
    ensures
        run.steps(op, outcomes).len() == 3 * outcomes.len() - 2,
        run.steps(op, outcomes)[3 * i] == Step::Called(outcomes[i]),
        i + 1 < outcomes.len() ==> {
            &&& run.steps(op, outcomes)[3 * i + 1] matches Step::Reported { op: name, attempt }
                && name == op && attempt == i + 1
            &&& run.steps(op, outcomes)[3 * i + 2] matches Step::Waited { ms } && ms
                == run.config.delay((i + 1) as u32, run.jitter_seed) as u64
        },
{
    law_attempts_are_bounded(run, outcomes);
    let failed = outcomes.drop_last();
    lemma_retried_steps(run, op, failed, i);
}

proof fn lemma_retried_steps<R>(
    run: RetryRun,
    op: Seq<char>,
    outcomes: Seq<ResiliencxResult<R>>,
    i: int,
)
    requires
        0 <= i,
    ensures
        run.retried(op, outcomes).len() == 3 * outcomes.len(),
        i < outcomes.len() ==> {
            let attempt = (i + 1) as u32;
            &&& run.retried(op, outcomes)[3 * i] == Step::Called(outcomes[i])
            &&& run.retried(op, outcomes)[3 * i + 1] == (Step::<R>::Reported { op, attempt })
            &&& run.retried(op, outcomes)[3 * i + 2] == (Step::<R>::Waited {
                ms: run.config.delay(attempt, run.jitter_seed) as u64,
            })
        },
    decreases outcomes.len(),
{
    if outcomes.len() > 0 {
        let before = outcomes.drop_last();
        lemma_retried_steps(run, op, before, i);
    }
}

/// The run's own observer and wait keep pace with its calls. When call number `k + 1` is made, the
/// observer of the run has been told of exactly the first `k` retries and its wait has been asked
/// for exactly their delays; the entries so far have led there, and the others lead on from there.
pub proof fn law_observer_and_wait_keep_pace_with_the_calls<R, I: Instrumentation, W: Wait>(
    run: RetryRun,
    op: Seq<char>,
    outcomes: Seq<ResiliencxResult<R>>,
    entries: Seq<Entry<R, I, W>>,
    k: int,
    observer: I,
    wait: W,
    observer_after: I,
    wait_after: W,
) -> (there: (I, W))
    requires
        run.complete(outcomes),
        Entry::steps(entries) == run.steps(op, outcomes),
        Entry::lead(entries, observer, wait, observer_after, wait_after),
        0 <= k < outcomes.len(),
    ensures
        entries[3 * k] == Entry::<R, I, W>::Called(outcomes[k]),
        Entry::lead(entries.take(3 * k), observer, wait, there.0, there.1),
        Entry::lead(entries.skip(3 * k), there.0, there.1, observer_after, wait_after),
        run.shows(op, k as nat, observer, there.0, wait, there.1),
{
    law_each_retry_is_reported_then_waited_for(run, op, outcomes, k);
    assert(entries.len() == Entry::steps(entries).len());
    assert(entries[3 * k].step() == Entry::steps(entries)[3 * k]);
    let there = super::operation::law_entries_lead_all_the_way(
        entries,
        3 * k,
        observer,
        wait,
        observer_after,
        wait_after,
    );
    let failed = outcomes.drop_last();
    lemma_retried_prefix(run, op, failed, k);
    lemma_retried_steps(run, op, failed, 0);
    assert(failed.take(k) =~= outcomes.take(k));
    assert(Entry::steps(entries.take(3 * k)) =~= run.steps(op, outcomes).take(3 * k));
    assert(run.steps(op, outcomes).take(3 * k) =~= run.retried(op, failed).take(3 * k));
    lemma_retried_entries_show(
        run,
        op,
        outcomes.take(k),
        entries.take(3 * k),
        observer,
        wait,
        there.0,
        there.1,
    );
    there
}

proof fn lemma_retried_prefix<R>(
    run: RetryRun,
    op: Seq<char>,
    outcomes: Seq<ResiliencxResult<R>>,
    k: int,
)
    requires
        0 <= k <= outcomes.len(),
    ensures
        run.retried(op, outcomes).len() == 3 * outcomes.len(),
        run.retried(op, outcomes).take(3 * k) == run.retried(op, outcomes.take(k)),
    decreases outcomes.len(),
{
    lemma_retried_steps(run, op, outcomes, 0);
    if k == outcomes.len() {
        assert(outcomes.take(k) =~= outcomes);
        assert(run.retried(op, outcomes).take(3 * k) =~= run.retried(op, outcomes));
    } else {
        let before = outcomes.drop_last();
        lemma_retried_prefix(run, op, before, k);
        assert(before.take(k) =~= outcomes.take(k));
        assert(run.retried(op, outcomes).take(3 * k) =~= run.retried(op, before).take(3 * k));
    }
}

/// Entries of attempts that were all retried tell the observer of just these retries and ask the
/// wait for just their delays.
pub(crate) proof fn lemma_retried_entries_show<R, I: Instrumentation, W: Wait>(
    run: RetryRun,
    op: Seq<char>,
    outcomes: Seq<ResiliencxResult<R>>,
    entries: Seq<Entry<R, I, W>>,
    observer: I,
    wait: W,
    observer_after: I,
    wait_after: W,
)
    requires
        Entry::steps(entries) == run.retried(op, outcomes),
        Entry::lead(entries, observer, wait, observer_after, wait_after),
    ensures
        run.shows(op, outcomes.len(), observer, observer_after, wait, wait_after),
    decreases outcomes.len(),
{
    let steps = Entry::steps(entries);
    assert(entries.len() == steps.len());
    if outcomes.len() == 0 {
        crate::instrumentation::lemma_observed_nothing(observer);
        super::wait::lemma_waited_nothing(wait);
        assert(RetryRun::reports(op, 0) =~= Seq::<Event>::empty());
        assert(run.delays(0) =~= Seq::<u64>::empty());
    } else {
        let before = outcomes.drop_last();
        let attempt = outcomes.len() as u32;
        let ms = run.config.delay(attempt, run.jitter_seed) as u64;
        let earlier = run.retried(op, before);
        let reported = entries.drop_last();
        let called = reported.drop_last();
        let led = called.drop_last();
        assert(entries.last().step() == steps.last());
        assert(reported.last().step() == steps[steps.len() - 2]);
        assert(called.last().step() == steps[steps.len() - 3]);
        assert(Entry::steps(led) =~= steps.take(led.len() as int));
        assert(steps.take(led.len() as int) =~= earlier);
        let asked = match entries.last() {
            Entry::Waited { wait, .. } => wait,
            _ => wait,
        };
        let told = match reported.last() {
            Entry::Reported { observer, .. } => observer,
            _ => observer,
        };
        assert(Entry::lead(reported, observer, wait, observer_after, asked));
        assert(Entry::lead(called, observer, wait, told, asked));
        assert(Entry::lead(led, observer, wait, told, asked));
        lemma_retried_entries_show(run, op, before, led, observer, wait, told, asked);
        let event = Event::Retry { op, attempt };
        crate::instrumentation::lemma_observed_push(
            observer,
            RetryRun::reports(op, before.len()),
            told,
            event,
            observer_after,
        );
        assert(RetryRun::reports(op, outcomes.len()) =~= RetryRun::reports(op, before.len()).push(
            event,
        ));
        super::wait::lemma_waited_push(wait, run.delays(before.len()), asked, ms, wait_after);
        assert(run.delays(outcomes.len()) =~= run.delays(before.len()).push(ms));
    }
}

/// The account of a run holds just the outcomes of the run: where nothing happened before, reading
/// the calls off its steps gives back the outcomes.
pub proof fn law_steps_tell_the_outcomes<R>(
    run: RetryRun,
    op: Seq<char>,
    outcomes: Seq<ResiliencxResult<R>>,
)
    ensures
        Step::outcomes(run.steps(op, outcomes)) == outcomes,
{
    if outcomes.len() > 0 {
        let failed = outcomes.drop_last();
        lemma_retried_outcomes(run, op, failed);
        let steps = run.retried(op, failed);
        assert(steps.push(Step::Called(outcomes.last())).drop_last() =~= steps);
        assert(failed.push(outcomes.last()) =~= outcomes);
    }
}

proof fn lemma_retried_outcomes<R>(
    run: RetryRun,
    op: Seq<char>,
    outcomes: Seq<ResiliencxResult<R>>,
)
    ensures
        Step::outcomes(run.retried(op, outcomes)) == outcomes,
    decreases outcomes.len(),
{
    if outcomes.len() > 0 {
        let before = outcomes.drop_last();
        lemma_retried_outcomes(run, op, before);
        let steps = run.retried(op, before);
        let attempt = outcomes.len() as u32;
        let made = steps.push(Step::Called(outcomes.last()));
        let reported = made.push(Step::Reported { op, attempt });
        let waited = run.retried(op, outcomes);
        assert(made.drop_last() =~= steps);
        assert(reported.drop_last() =~= made);
        assert(waited.drop_last() =~= reported);
        assert(before.push(outcomes.last()) =~= outcomes);
        assert(Step::outcomes(made) == outcomes);
        assert(Step::outcomes(reported) == outcomes);
    }
}

/// The retries of a run are reported by the numbers of the attempts that failed, one after the
/// other from one.
pub proof fn law_reports_count_from_one(op: Seq<char>, retries: nat, i: int)
    requires
        0 <= i < retries,
        retries < u32::MAX,
    ensures
        RetryRun::reports(op, retries).len() == retries,
        RetryRun::reports(op, retries)[i] matches Event::Retry { op: name, attempt } && name == op
            && attempt == i + 1,
{
}

/// A run that allows no attempt is refused as invalid input.
pub proof fn law_no_attempts_is_invalid_input()
    ensures
        RetryConfig::no_attempts().kind == ErrorKind::Invalid,
        RetryConfig::no_attempts().context == "max_attempts 必须大于或等于 1"@,
        RetryConfig::no_attempts().retry_after is None,
        RetryConfig::no_attempts().source is None,
{
}

/// A run has the configuration and the seed that it was given, and as many tokens as its budget has
/// left, if it has one.
pub proof fn law_run_is_what_it_was_given(
    config: RetryConfig,
    jitter_seed: u64,
    budget: Option<&mut RetryBudget>,
)
    ensures
        RetryRun::new(config, jitter_seed, budget).config == config,
        RetryRun::new(config, jitter_seed, budget).jitter_seed == jitter_seed,
        budget is None ==> RetryRun::new(config, jitter_seed, budget).tokens is None,
        budget is Some ==> RetryRun::new(config, jitter_seed, budget).tokens == Some(
            budget->0@.remaining,
        ),
{
}

/// Which attempts a run makes, in terms of what each came to. There is none exactly where none is
/// allowed. Every one but the last failed with a transient error, was not the last that is allowed,
/// and had a token for its retry. The last one succeeded, or failed with another error, or was the
/// last that is allowed, or had no token.
pub proof fn law_attempts_of_a_run<R>(run: RetryRun, outcomes: Seq<ResiliencxResult<R>>, i: int)
    requires
        run.complete(outcomes),
        0 <= i < outcomes.len() || outcomes.len() == 0,
    ensures
        outcomes.len() == 0 <==> run.config.max_attempts == 0,
        0 <= i < outcomes.len() - 1 ==> {
            &&& outcomes[i] matches Err(error) && error@.kind == ErrorKind::Transient
            &&& i + 1 < run.config.max_attempts
            &&& run.tokens matches Some(tokens) ==> i + 1 <= tokens
        },
        outcomes.len() > 0 && i == outcomes.len() - 1 ==> {
            ||| outcomes[i] is Ok
            ||| outcomes[i] matches Err(error) && error@.kind != ErrorKind::Transient
            ||| i + 1 == run.config.max_attempts
            ||| run.tokens matches Some(tokens) && i == tokens
        },
{
    law_attempts_are_bounded(run, outcomes);
    if 0 <= i < outcomes.len() - 1 {
        assert(run.goes_on(outcomes[i], i + 1));
    }
}

/// What a run returns, in terms of what its last attempt came to: just that, unless it was a
/// transient error with attempts left, for then only the token was missing and the error is the
/// budget's. Where no attempt is allowed the error says so.
pub proof fn law_result_of_a_run<R>(
    run: RetryRun,
    outcomes: Seq<ResiliencxResult<R>>,
    result: ResiliencxResult<R>,
)
    requires
        run.ends(outcomes, result),
    ensures
        run.config.max_attempts == 0 ==> {
            &&& result matches Err(error)
            &&& error@.kind == ErrorKind::Invalid
            &&& error@.context == "max_attempts 必须大于或等于 1"@
        },
        outcomes.len() > 0 && outcomes.last() is Ok ==> result == outcomes.last(),
        outcomes.len() > 0 && outcomes.len() == run.config.max_attempts ==> result
            == outcomes.last(),
        outcomes.len() > 0 && (outcomes.last() matches Err(last) && last@.kind
            != ErrorKind::Transient) ==> result == outcomes.last(),
        0 < outcomes.len() < run.config.max_attempts && (outcomes.last() matches Err(last)
            && last@.kind == ErrorKind::Transient) ==> {
            &&& result matches Err(error)
            &&& error@.kind == ErrorKind::Unavailable
            &&& error@.context == "重试预算已耗尽"@
            &&& error@.retry_after is None
            &&& error@.source is None
        },
{
}

/// An operation that keeps failing for passing reasons is tried as often as the run allows, and no
/// less: `max_attempts` times, or, where the budget runs out before that, once more than it has
/// tokens.
pub proof fn law_failing_runs_use_all_they_may<R>(
    run: RetryRun,
    outcomes: Seq<ResiliencxResult<R>>,
)
    requires
        run.complete(outcomes),
        forall|i: int|
            0 <= i < outcomes.len() ==> (#[trigger] outcomes[i] matches Err(error) && error@.kind
                == ErrorKind::Transient),
    ensures
        run.tokens is None ==> outcomes.len() == run.config.max_attempts,
        run.tokens matches Some(tokens) ==> outcomes.len() == if tokens + 1
            < run.config.max_attempts {
            tokens + 1
        } else {
            run.config.max_attempts as nat
        },
{
    law_attempts_are_bounded(run, outcomes);
    if outcomes.len() > 0 {
        let last = outcomes[outcomes.len() - 1];
        assert(last matches Err(error) && error@.kind == ErrorKind::Transient);
        law_attempts_of_a_run(run, outcomes, outcomes.len() - 1);
    }
}

/// Every attempt after the first is a retry.
pub proof fn law_retries_are_the_attempts_after_the_first<R>(outcomes: Seq<ResiliencxResult<R>>)
    ensures
        outcomes.len() == 0 ==> RetryRun::retries(outcomes) == 0,
        outcomes.len() > 0 ==> RetryRun::retries(outcomes) + 1 == outcomes.len(),
{
}

/// The account of a run, entry by entry. What was in the account before stays there. After it come
/// the calls with their outcomes; and between call `i + 1` and the next, first the report of attempt
/// `i + 1` to the run's own observer, as the report before it has left it, and then the delay after
/// failure `i + 1`, asked of the run's own wait, as the delay before it has left it. With the last
/// report the observer, and with the last delay the wait, is what it is after the run.
pub proof fn law_account_of_a_run<C: Callable<R>, R, I: Instrumentation, W: Wait>(
    run: RetryRun,
    op: Seq<char>,
    result: ResiliencxResult<R>,
    operation: Operation<C, R, I, W>,
    operation_after: Operation<C, R, I, W>,
    observer: I,
    observer_after: I,
    wait: W,
    wait_after: W,
    i: int,
)
    requires
        run.performed(
            op,
            result,
            operation,
            operation_after,
            observer,
            observer_after,
            wait,
            wait_after,
        ),
    ensures
        ({
            let before = operation.account().len() as int;
            let account = operation_after.account();
            let outcomes = operation_after.outcomes_since(operation);
            let calls = outcomes.len();
            &&& account.take(before) == operation.account()
            &&& calls == 0 <==> run.config.max_attempts == 0
            &&& account.len() == before + if calls == 0 {
                0
            } else {
                3 * calls - 2
            }
            &&& run.ends(outcomes, result)
            &&& super::operation::called(operation.callee(), outcomes, operation_after.callee())
            &&& calls <= 1 ==> observer_after == observer && wait_after == wait
            &&& 0 <= i < calls ==> account[before + 3 * i] == Entry::<R, I, W>::Called(outcomes[i])
            &&& 0 <= i < calls - 1 ==> {
                &&& account[before + 3 * i + 1] matches Entry::Reported {
                    op: name,
                    attempt,
                    observer: told,
                    observer_after: left,
                }
                &&& name == op
                &&& attempt == i + 1
                &&& told.observes(Event::Retry { op, attempt }, &left)
                &&& i == 0 ==> told == observer
                &&& i == calls - 2 ==> left == observer_after
                &&& i < calls - 2 ==> (account[before + 3 * i + 4] matches Entry::Reported {
                    observer: next,
                    ..
                } && next == left)
            }
            &&& 0 <= i < calls - 1 ==> {
                &&& account[before + 3 * i + 2] matches Entry::Waited {
                    ms,
                    wait: asked,
                    wait_after: left,
                }
                &&& ms == run.config.delay((i + 1) as u32, run.jitter_seed)
                &&& asked.waits(ms, &left)
                &&& i == 0 ==> asked == wait
                &&& i == calls - 2 ==> left == wait_after
                &&& i < calls - 2 ==> (account[before + 3 * i + 5] matches Entry::Waited {
                    wait: next,
                    ..
                } && next == left)
            }
        }),
{
    let outcomes = operation_after.outcomes_since(operation);
    let entries = operation_after.account_since(operation);
    let before = operation.account().len() as int;
    let account = operation_after.account();
    assert(account.take(before) =~= operation.account());
    assert forall|j: int| 0 <= j < entries.len() implies #[trigger] entries[j] == account[before
        + j] by {}
    assert(entries.len() == Entry::steps(entries).len());
    law_attempts_are_bounded(run, outcomes);
    if outcomes.len() > 0 {
        let failed = outcomes.drop_last();
        let led = entries.drop_last();
        lemma_retried_steps(run, op, failed, 0);
        assert(Entry::steps(led) =~= Entry::steps(entries).drop_last());
        assert(Entry::steps(entries).drop_last() =~= run.retried(op, failed));
        assert(entries.last().step() == Entry::steps(entries).last());
        if 0 <= i < outcomes.len() {
            law_each_retry_is_reported_then_waited_for(run, op, outcomes, i);
            assert(entries[3 * i].step() == Entry::steps(entries)[3 * i]);
        }
        if 0 <= i < failed.len() {
            super::jitter::law_delay_fits(run.config, (i + 1) as u32, run.jitter_seed);
            lemma_retried_entries_chain(
                run,
                op,
                failed,
                led,
                observer,
                wait,
                observer_after,
                wait_after,
                i,
            );
            assert(led[3 * i + 1] == account[before + 3 * i + 1]);
            assert(led[3 * i + 2] == account[before + 3 * i + 2]);
            if i + 1 < failed.len() {
                assert(led[3 * i + 4] == account[before + 3 * i + 4]);
                assert(led[3 * i + 5] == account[before + 3 * i + 5]);
            }
        } else if failed.len() == 0 {
            assert(led.len() == 0);
        }
    } else {
        assert(entries.len() == 0);
    }
}

/// The observer and the wait pass through the entries of retried attempts without a gap.
proof fn lemma_retried_entries_chain<R, I: Instrumentation, W: Wait>(
    run: RetryRun,
    op: Seq<char>,
    outcomes: Seq<ResiliencxResult<R>>,
    entries: Seq<Entry<R, I, W>>,
    observer: I,
    wait: W,
    observer_after: I,
    wait_after: W,
    i: int,
)
    requires
        Entry::steps(entries) == run.retried(op, outcomes),
        Entry::lead(entries, observer, wait, observer_after, wait_after),
        0 <= i < outcomes.len(),
    ensures
        entries.len() == 3 * outcomes.len(),
        ({
            &&& entries[3 * i + 1] matches Entry::Reported {
                op: name,
                attempt,
                observer: told,
                observer_after: left,
            }
            &&& name == op
            &&& attempt == (i + 1) as u32
            &&& told.observes(Event::Retry { op, attempt }, &left)
            &&& i == 0 ==> told == observer
            &&& i == outcomes.len() - 1 ==> left == observer_after
            &&& i < outcomes.len() - 1 ==> (entries[3 * i + 4] matches Entry::Reported {
                observer: next,
                ..
            } && next == left)
        }),
        ({
            &&& entries[3 * i + 2] matches Entry::Waited { ms, wait: asked, wait_after: left }
            &&& ms == run.config.delay((i + 1) as u32, run.jitter_seed) as u64
            &&& asked.waits(ms, &left)
            &&& i == 0 ==> asked == wait
            &&& i == outcomes.len() - 1 ==> left == wait_after
            &&& i < outcomes.len() - 1 ==> (entries[3 * i + 5] matches Entry::Waited {
                wait: next,
                ..
            } && next == left)
        }),
    decreases outcomes.len(),
{
    let steps = Entry::steps(entries);
    let before = outcomes.drop_last();
    lemma_retried_steps(run, op, outcomes, i);
    lemma_retried_steps(run, op, before, 0);
    assert(entries.len() == steps.len());
    let reported = entries.drop_last();
    let called = reported.drop_last();
    let led = called.drop_last();
    assert(entries.last().step() == steps.last());
    assert(reported.last().step() == steps[steps.len() - 2]);
    assert(called.last().step() == steps[steps.len() - 3]);
    assert(Entry::steps(led) =~= steps.take(led.len() as int));
    assert(steps.take(led.len() as int) =~= run.retried(op, before));
    let asked = match entries.last() {
        Entry::Waited { wait, .. } => wait,
        _ => wait,
    };
    let told = match reported.last() {
        Entry::Reported { observer, .. } => observer,
        _ => observer,
    };
    assert(Entry::lead(reported, observer, wait, observer_after, asked));
    assert(Entry::lead(called, observer, wait, told, asked));
    assert(Entry::lead(led, observer, wait, told, asked));
    if i < before.len() {
        lemma_retried_entries_chain(run, op, before, led, observer, wait, told, asked, i);
        assert(led[3 * i + 1] == entries[3 * i + 1]);
        assert(led[3 * i + 2] == entries[3 * i + 2]);
        if i + 1 < before.len() {
            assert(led[3 * i + 4] == entries[3 * i + 4]);
            assert(led[3 * i + 5] == entries[3 * i + 5]);
        }
    } else if i == 0 {
        assert(led.len() == 0);
    }
}

/// A retry is called for exactly after a transient error with attempts left, however many there are,
/// and a budget grants exactly as many retries as it has tokens.
pub proof fn law_when_to_retry<R>(run: RetryRun, outcome: ResiliencxResult<R>, attempt: int)
    ensures
        outcome is Ok ==> !run.config.wants_retry(outcome, attempt),
        outcome matches Err(error) ==> (run.config.wants_retry(outcome, attempt) <==> error@.kind
            == ErrorKind::Transient && attempt < run.config.max_attempts),
        run.tokens is None ==> run.grants(attempt),
        run.tokens matches Some(tokens) ==> (run.grants(attempt) <==> attempt <= tokens),
{
}

} // verus!
