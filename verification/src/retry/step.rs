//! A run that somebody else drives, one decision at a time.
//!
//! Calling the operation and waiting are up to the driver, who may do either without blocking a
//! thread. Everything else of a run is done here, and each type gives out only what its turn has
//! come for: an [`Attempt`] takes the outcome of the call and either finishes the run or asks for
//! a retry; a [`PendingRetry`] takes its token from the budget; a [`RetryDelay`] says how long to
//! wait, and gives the token back if the run is dropped there; and only once the delay is over is
//! there a [`ReadyRetry`], which reports the retry and leads to the next [`Attempt`].

use super::jitter::retry_delay_ms_with_seed;
use super::{RetryConfig, RetryRun, RetrySafety};
use crate::budget::{budget_exhausted_error, RetryBudget};
use crate::error::{ErrorKind, ErrorView, ResiliencxError, ResiliencxResult};
use crate::instrumentation::{Event, Instrumentation};
use vstd::prelude::*;

verus! {

/// Something that has happened in a driven run.
pub enum DrivenStep<R> {
    /// A call has ended, with this outcome.
    Called(ResiliencxResult<R>),
    /// The budget, if there is one, has set a token aside for a retry.
    Reserved,
    /// A delay is over.
    Waited {
        /// The delay in milliseconds.
        ms: u64,
    },
    /// The token is spent for good.
    Committed,
    /// The observer was told that attempt number `attempt` has failed and another follows.
    Reported {
        /// The attempt that failed, counted from one.
        attempt: u32,
    },
}

impl<R> DrivenStep<R> {
    /// The attempts that were reported among these steps.
    pub open spec fn reports(steps: Seq<DrivenStep<R>>) -> Seq<u32>
        decreases steps.len(),
    {
        if steps.len() == 0 {
            Seq::empty()
        } else {
            let before = DrivenStep::reports(steps.drop_last());
            match steps.last() {
                DrivenStep::Reported { attempt } => before.push(attempt),
                _ => before,
            }
        }
    }
}

/// Where a driven run stands.
pub struct DrivenView<R> {
    /// How often to try and how long to wait.
    pub config: RetryConfig,
    /// The seed of the jitter.
    pub jitter_seed: u64,
    /// The outcomes of the calls so far.
    pub outcomes: Seq<ResiliencxResult<R>>,
    /// What has happened so far.
    pub steps: Seq<DrivenStep<R>>,
}

impl<R> DrivenView<R> {
    /// What happens in attempts that were all retried: after each call a token is reserved, then
    /// the delay passes, then the token is spent and then the retry is reported.
    pub open spec fn retried(
        config: RetryConfig,
        jitter_seed: u64,
        outcomes: Seq<ResiliencxResult<R>>,
    ) -> Seq<DrivenStep<R>>
        decreases outcomes.len(),
    {
        if outcomes.len() == 0 {
            Seq::empty()
        } else {
            let attempt = outcomes.len() as u32;
            DrivenView::retried(config, jitter_seed, outcomes.drop_last()).push(
                DrivenStep::Called(outcomes.last()),
            ).push(DrivenStep::Reserved).push(
                DrivenStep::Waited { ms: config.delay(attempt, jitter_seed) as u64 },
            ).push(DrivenStep::Committed).push(DrivenStep::Reported { attempt })
        }
    }

    /// Every call so far failed for a passing reason and was not the last that is allowed.
    pub open spec fn goes_on(self) -> bool {
        forall|i: int|
            0 <= i < self.outcomes.len() ==> self.config.wants_retry(
                #[trigger] self.outcomes[i],
                i + 1,
            )
    }

    /// The next call is due: every retry so far has been reserved, waited for, spent and reported.
    pub open spec fn at_call(self) -> bool {
        &&& self.outcomes.len() < self.config.max_attempts
        &&& self.goes_on()
        &&& self.steps == DrivenView::retried(self.config, self.jitter_seed, self.outcomes)
    }

    /// What had happened when the last call so far was due.
    pub open spec fn before_last_call(self) -> Seq<DrivenStep<R>> {
        DrivenView::retried(self.config, self.jitter_seed, self.outcomes.drop_last())
    }

    /// The last call has failed and its retry needs a token.
    pub open spec fn at_reservation(self) -> bool {
        &&& 1 <= self.outcomes.len() < self.config.max_attempts
        &&& self.goes_on()
        &&& self.steps == self.before_last_call().push(DrivenStep::Called(self.outcomes.last()))
    }

    /// The retry has its token and its delay is not over yet.
    pub open spec fn in_delay(self) -> bool {
        &&& 1 <= self.outcomes.len() < self.config.max_attempts
        &&& self.goes_on()
        &&& self.steps == self.before_last_call().push(
            DrivenStep::Called(self.outcomes.last()),
        ).push(DrivenStep::Reserved)
    }

    /// The delay is over and the retry is still to be reported.
    pub open spec fn at_report(self) -> bool {
        &&& 1 <= self.outcomes.len() < self.config.max_attempts
        &&& self.goes_on()
        &&& self.steps == self.before_last_call().push(
            DrivenStep::Called(self.outcomes.last()),
        ).push(DrivenStep::Reserved).push(DrivenStep::Waited { ms: self.delay() }).push(
            DrivenStep::Committed,
        )
    }

    /// How many milliseconds the retry of the last call has to wait.
    pub open spec fn delay(self) -> u64 {
        self.config.delay(self.outcomes.len() as u32, self.jitter_seed) as u64
    }

    /// After one more thing has happened.
    pub open spec fn then_step(self, step: DrivenStep<R>) -> DrivenView<R> {
        DrivenView {
            outcomes: match step {
                DrivenStep::Called(outcome) => self.outcomes.push(outcome),
                _ => self.outcomes,
            },
            steps: self.steps.push(step),
            ..self
        }
    }
}

/// An attempt that is to be made.
pub struct Attempt<R> {
    config: RetryConfig,
    jitter_seed: u64,
    number: u32,
    so_far: Ghost<DrivenView<R>>,
}

/// What follows an attempt.
pub enum AttemptEnd<R> {
    /// Nothing: this is the result of the run.
    Finished(ResiliencxResult<R>),
    /// A retry, if the budget allows it.
    Retry(PendingRetry<R>),
}

/// A retry that needs a token of the budget.
pub struct PendingRetry<R> {
    config: RetryConfig,
    jitter_seed: u64,
    failed: u32,
    so_far: Ghost<DrivenView<R>>,
}

/// A retry that has its token and waits.
pub struct RetryDelay<R> {
    config: RetryConfig,
    jitter_seed: u64,
    failed: u32,
    holds_token: bool,
    so_far: Ghost<DrivenView<R>>,
}

/// A retry whose delay is over.
pub struct ReadyRetry<R> {
    config: RetryConfig,
    jitter_seed: u64,
    failed: u32,
    so_far: Ghost<DrivenView<R>>,
}

impl<R> View for Attempt<R> {
    type V = DrivenView<R>;

    closed spec fn view(&self) -> DrivenView<R> {
        self.so_far@
    }
}

impl<R> View for PendingRetry<R> {
    type V = DrivenView<R>;

    closed spec fn view(&self) -> DrivenView<R> {
        self.so_far@
    }
}

impl<R> View for RetryDelay<R> {
    type V = DrivenView<R>;

    closed spec fn view(&self) -> DrivenView<R> {
        self.so_far@
    }
}

impl<R> View for ReadyRetry<R> {
    type V = DrivenView<R>;

    closed spec fn view(&self) -> DrivenView<R> {
        self.so_far@
    }
}

impl<R> Attempt<R> {
    #[verifier::type_invariant]
    spec fn is_due(self) -> bool {
        &&& self@.config == self.config
        &&& self@.jitter_seed == self.jitter_seed
        &&& self@.outcomes.len() + 1 == self.number
        &&& self@.at_call()
    }

    /// The first attempt of a run, unless the configuration allows none.
    pub fn first(config: &RetryConfig, jitter_seed: u64) -> (attempt: ResiliencxResult<Attempt<R>>)
        ensures
            match attempt {
                Ok(attempt) => config.max_attempts >= 1 && attempt@ == (DrivenView::<R> {
                    config: *config,
                    jitter_seed,
                    outcomes: Seq::empty(),
                    steps: Seq::empty(),
                }),
                Err(error) => config.max_attempts == 0 && error@ == RetryConfig::no_attempts(),
            },
    {
        if config.max_attempts == 0 {
            return Err(ResiliencxError::invalid("max_attempts 必须大于或等于 1"));
        }
        let ghost start = DrivenView::<R> {
            config: *config,
            jitter_seed,
            outcomes: Seq::empty(),
            steps: Seq::empty(),
        };
        Ok(Attempt { config: *config, jitter_seed, number: 1, so_far: Ghost(start) })
    }

    /// The first attempt of a run whose declared safety has to allow it: an operation with unsafe
    /// effects and more than one attempt is refused, so that there is nothing to call it for.
    pub fn first_safe(config: &RetryConfig, safety: RetrySafety, jitter_seed: u64) -> (attempt:
        ResiliencxResult<Attempt<R>>)
        ensures
            attempt is Ok <==> config.max_attempts == 1 || (config.max_attempts > 1 && safety
                != RetrySafety::UnsafeSideEffect),
            match attempt {
                Ok(attempt) => {
                    &&& safety.allows(*config)
                    &&& config.max_attempts >= 1
                    &&& attempt@ == (DrivenView::<R> {
                        config: *config,
                        jitter_seed,
                        outcomes: Seq::empty(),
                        steps: Seq::empty(),
                    })
                },
                Err(error) => if safety.allows(*config) {
                    config.max_attempts == 0 && error@ == RetryConfig::no_attempts()
                } else {
                    error@ == RetrySafety::refusal()
                },
            },
    {
        match safety.validate(config) {
            Ok(_) => Attempt::first(config, jitter_seed),
            Err(error) => Err(error),
        }
    }

    /// Ends the attempt with the outcome of its call.
    pub fn finish(self, outcome: ResiliencxResult<R>) -> (end: AttemptEnd<R>)
        ensures
            self@.at_call(),
            match end {
                AttemptEnd::Finished(result) => {
                    &&& !self@.config.wants_retry(outcome, self@.outcomes.len() as int + 1)
                    &&& result == outcome
                },
                AttemptEnd::Retry(retry) => {
                    &&& self@.config.wants_retry(outcome, self@.outcomes.len() as int + 1)
                    &&& retry@ == self@.then_step(DrivenStep::Called(outcome))
                },
            },
            end is Retry <==> (outcome matches Err(error) && error@.kind == ErrorKind::Transient
                && self@.outcomes.len() + 1 < self@.config.max_attempts),
    {
        proof {
            use_type_invariant(&self);
        }
        let ghost after = self@.then_step(DrivenStep::Called(outcome));
        assert(after.outcomes.drop_last() =~= self@.outcomes);
        match outcome {
            Err(error) => {
                if error.is_retryable() && self.number < self.config.max_attempts {
                    AttemptEnd::Retry(
                        PendingRetry {
                            config: self.config,
                            jitter_seed: self.jitter_seed,
                            failed: self.number,
                            so_far: Ghost(after),
                        },
                    )
                } else {
                    AttemptEnd::Finished(Err(error))
                }
            },
            Ok(value) => AttemptEnd::Finished(Ok(value)),
        }
    }
}

impl<R> PendingRetry<R> {
    #[verifier::type_invariant]
    spec fn needs_a_token(self) -> bool {
        &&& self@.config == self.config
        &&& self@.jitter_seed == self.jitter_seed
        &&& self@.outcomes.len() == self.failed
        &&& self@.at_reservation()
    }

    /// Takes a token from the budget, if there is one, for as long as the delay lasts. Without a
    /// token the run ends with the refusal of the budget.
    pub fn reserve(self, budget: Option<&mut RetryBudget>) -> (delay: ResiliencxResult<
        RetryDelay<R>,
    >)
        ensures
            self@.at_reservation(),
            match delay {
                Ok(delay) => {
                    &&& budget matches Some(budget) ==> budget@.remaining > 0
                    &&& delay.holds_token() == (budget is Some)
                    &&& delay@ == self@.then_step(DrivenStep::Reserved)
                },
                Err(error) => {
                    &&& budget matches Some(budget) && budget@.remaining == 0
                    &&& error@ == ErrorView::plain(ErrorKind::Unavailable, "重试预算已耗尽"@)
                },
            },
            budget matches Some(budget) ==> final(budget)@ == budget@.consumed(1),
    {
        proof {
            use_type_invariant(&self);
        }
        let holds_token: bool = match budget {
            Some(budget) => {
                if !budget.try_consume() {
                    return Err(budget_exhausted_error());
                }
                true
            },
            None => false,
        };
        Ok(
            RetryDelay {
                config: self.config,
                jitter_seed: self.jitter_seed,
                failed: self.failed,
                holds_token,
                so_far: Ghost(self@.then_step(DrivenStep::Reserved)),
            },
        )
    }
}

impl<R> RetryDelay<R> {
    #[verifier::type_invariant]
    spec fn is_waiting(self) -> bool {
        &&& self@.config == self.config
        &&& self@.jitter_seed == self.jitter_seed
        &&& self@.outcomes.len() == self.failed
        &&& self@.in_delay()
    }

    /// Whether a token of a budget is set aside for the retry.
    pub closed spec fn holds_token(self) -> bool {
        self.holds_token
    }

    /// How many milliseconds to wait.
    #[must_use]
    pub fn delay_ms(&self) -> (delay_ms: u64)
        ensures
            self@.in_delay(),
            delay_ms == self@.delay(),
            delay_ms == self@.config.delay(self@.outcomes.len() as u32, self@.jitter_seed),
    {
        proof {
            use_type_invariant(self);
        }
        retry_delay_ms_with_seed(&self.config, self.failed, self.jitter_seed)
    }

    /// The delay is over: the token is spent, and the retry may be reported.
    #[must_use]
    pub fn waited(self) -> (ready: ReadyRetry<R>)
        ensures
            self@.in_delay(),
            ready@ == self@.then_step(DrivenStep::Waited { ms: self@.delay() }).then_step(
                DrivenStep::Committed,
            ),
    {
        proof {
            use_type_invariant(&self);
        }
        ReadyRetry {
            config: self.config,
            jitter_seed: self.jitter_seed,
            failed: self.failed,
            so_far: Ghost(
                self@.then_step(DrivenStep::Waited { ms: self@.delay() }).then_step(
                    DrivenStep::Committed,
                ),
            ),
        }
    }

    /// The run is dropped before the delay is over: a token that was set aside goes back to its
    /// budget, and the retry is never reported.
    pub fn cancel(self, budget: Option<&mut RetryBudget>)
        ensures
            self@.in_delay(),
            budget matches Some(budget) ==> final(budget)@ == if self.holds_token() {
                budget@.refunded()
            } else {
                budget@
            },
    {
        proof {
            use_type_invariant(&self);
        }
        if self.holds_token {
            match budget {
                Some(budget) => {
                    budget.refund();
                },
                None => {},
            }
        }
    }
}

impl<R> ReadyRetry<R> {
    #[verifier::type_invariant]
    spec fn is_ready(self) -> bool {
        &&& self@.config == self.config
        &&& self@.jitter_seed == self.jitter_seed
        &&& self@.outcomes.len() == self.failed
        &&& self@.at_report()
    }

    /// Reports the retry, by the number of the attempt that failed, and goes on to the next
    /// attempt.
    #[must_use]
    pub fn report<I: Instrumentation>(self, instrumentation: &mut I, op: &str) -> (attempt: Attempt<
        R,
    >)
        ensures
            self@.at_report(),
            old(instrumentation).observes(
                Event::Retry { op: op@, attempt: self@.outcomes.len() as u32 },
                &*final(instrumentation),
            ),
            attempt@ == self@.then_step(
                DrivenStep::Reported { attempt: self@.outcomes.len() as u32 },
            ),
    {
        proof {
            use_type_invariant(&self);
        }
        instrumentation.record_retry(op, self.failed);
        Attempt {
            config: self.config,
            jitter_seed: self.jitter_seed,
            number: self.failed + 1,
            so_far: Ghost(self@.then_step(DrivenStep::Reported { attempt: self.failed })),
        }
    }
}

/// The result of a run that had to finish before a deadline: its own result if it did, and
/// otherwise the error that says the deadline has passed.
pub fn finish_by_deadline<R>(completed: Option<ResiliencxResult<R>>) -> (result: ResiliencxResult<R>)
    ensures
        match completed {
            Some(completed) => result == completed,
            None => result matches Err(error) && error@ == ErrorView::plain(
                ErrorKind::DeadlineExceeded,
                "resiliencx 整次重试已超过截止时间"@,
            ),
        },
{
    match completed {
        Some(completed) => completed,
        None => Err(ResiliencxError::deadline_exceeded("resiliencx 整次重试已超过截止时间")),
    }
}

/// A driven run that starts under a safety is never made to repeat unsafe effects: whenever a call
/// is due in it, either the effects are safe to repeat or it is the first call.
pub proof fn law_driven_unsafe_operations_run_at_most_once<R>(
    driven: DrivenView<R>,
    safety: RetrySafety,
)
    requires
        safety.allows(driven.config),
        driven.at_call(),
    ensures
        safety == RetrySafety::UnsafeSideEffect ==> driven.outcomes.len() == 0,
{
}

/// A driven run ends as a blocking one does. Say its budget had `tokens` tokens that nobody else
/// took. When a call is due, the calls before it took a token each; if its outcome calls for no
/// retry it is the result, and otherwise the budget has no token left and the result is the
/// budget's error. Then the outcomes and the result are those of a complete run.
pub proof fn law_driven_run_is_a_run<R>(
    driven: DrivenView<R>,
    tokens: Option<nat>,
    outcome: ResiliencxResult<R>,
    result: ResiliencxResult<R>,
)
    requires
        driven.at_call(),
        tokens matches Some(tokens) ==> driven.outcomes.len() <= tokens,
        !driven.config.wants_retry(outcome, driven.outcomes.len() as int + 1) ==> result == outcome,
        driven.config.wants_retry(outcome, driven.outcomes.len() as int + 1) ==> {
            &&& tokens == Some(driven.outcomes.len())
            &&& result matches Err(error) && error@ == ErrorView::plain(
                ErrorKind::Unavailable,
                "重试预算已耗尽"@,
            )
        },
    ensures
        (RetryRun { config: driven.config, jitter_seed: driven.jitter_seed, tokens }).ends(
            driven.outcomes.push(outcome),
            result,
        ),
{
}

/// In a driven run each retry is reserved, waited for, spent and reported, in this order, before
/// the next call: when a call is due, this is what lies between any two calls before it.
pub proof fn law_driven_retries_are_reported_after_their_delay<R>(run: DrivenView<R>, i: int)
    requires
        run.at_call(),
        0 <= i < run.outcomes.len(),
    ensures
        run.steps.len() == 5 * run.outcomes.len(),
        run.steps[5 * i] == DrivenStep::Called(run.outcomes[i]),
        run.steps[5 * i + 1] is Reserved,
        run.steps[5 * i + 2] matches DrivenStep::Waited { ms } && ms == run.config.delay(
            (i + 1) as u32,
            run.jitter_seed,
        ) as u64,
        run.steps[5 * i + 3] is Committed,
        run.steps[5 * i + 4] matches DrivenStep::Reported { attempt } && attempt == i + 1,
{
    lemma_driven_steps(run.config, run.jitter_seed, run.outcomes, i);
}

proof fn lemma_driven_steps<R>(
    config: RetryConfig,
    jitter_seed: u64,
    outcomes: Seq<ResiliencxResult<R>>,
    i: int,
)
    requires
        0 <= i,
    ensures
        ({
            let steps = DrivenView::retried(config, jitter_seed, outcomes);
            let attempt = (i + 1) as u32;
            &&& steps.len() == 5 * outcomes.len()
            &&& i < outcomes.len() ==> {
                &&& steps[5 * i] == DrivenStep::Called(outcomes[i])
                &&& steps[5 * i + 1] == DrivenStep::<R>::Reserved
                &&& steps[5 * i + 2] == (DrivenStep::<R>::Waited {
                    ms: config.delay(attempt, jitter_seed) as u64,
                })
                &&& steps[5 * i + 3] == DrivenStep::<R>::Committed
                &&& steps[5 * i + 4] == (DrivenStep::<R>::Reported { attempt })
            }
        }),
    decreases outcomes.len(),
{
    if outcomes.len() > 0 {
        lemma_driven_steps(config, jitter_seed, outcomes.drop_last(), i);
    }
}

/// A retry that is dropped in its delay is not reported: after the failure of call number `k` the
/// reports so far are those of the attempts from 1 to `k - 1`, until the delay is over and the
/// retry is reported too.
pub proof fn law_dropped_retry_is_not_reported<R>(run: DrivenView<R>)
    requires
        run.at_reservation() || run.in_delay() || run.at_report(),
    ensures
        DrivenStep::reports(run.steps) == Seq::new(
            (run.outcomes.len() - 1) as nat,
            |i: int| (i + 1) as u32,
        ),
{
    let before = run.before_last_call();
    lemma_driven_reports(run.config, run.jitter_seed, run.outcomes.drop_last());
    lemma_unreported_until_the_report(before, run.outcomes.last(), run.delay());
}

/// A step that is no report adds nothing to the reports.
proof fn lemma_other_steps_are_no_reports<R>(steps: Seq<DrivenStep<R>>, step: DrivenStep<R>)
    requires
        !(step is Reported),
    ensures
        DrivenStep::reports(steps.push(step)) == DrivenStep::reports(steps),
{
    assert(steps.push(step).drop_last() =~= steps);
}

/// None of the steps from a call to the end of its delay is a report.
proof fn lemma_unreported_until_the_report<R>(
    before: Seq<DrivenStep<R>>,
    outcome: ResiliencxResult<R>,
    ms: u64,
)
    ensures
        ({
            let called = before.push(DrivenStep::Called(outcome));
            let reserved = called.push(DrivenStep::Reserved);
            let committed = reserved.push(DrivenStep::Waited { ms }).push(DrivenStep::Committed);
            &&& DrivenStep::reports(called) == DrivenStep::reports(before)
            &&& DrivenStep::reports(reserved) == DrivenStep::reports(before)
            &&& DrivenStep::reports(committed) == DrivenStep::reports(before)
        }),
{
    let called = before.push(DrivenStep::Called(outcome));
    let reserved = called.push(DrivenStep::Reserved);
    let waited = reserved.push(DrivenStep::Waited { ms });
    lemma_other_steps_are_no_reports(before, DrivenStep::Called(outcome));
    lemma_other_steps_are_no_reports(called, DrivenStep::Reserved);
    lemma_other_steps_are_no_reports(reserved, DrivenStep::Waited { ms });
    lemma_other_steps_are_no_reports(waited, DrivenStep::Committed);
}

proof fn lemma_driven_reports<R>(
    config: RetryConfig,
    jitter_seed: u64,
    outcomes: Seq<ResiliencxResult<R>>,
)
    ensures
        DrivenStep::reports(DrivenView::retried(config, jitter_seed, outcomes)) == Seq::new(
            outcomes.len(),
            |i: int| (i + 1) as u32,
        ),
    decreases outcomes.len(),
{
    if outcomes.len() > 0 {
        let attempt = outcomes.len() as u32;
        let failed = outcomes.drop_last();
        lemma_driven_reports(config, jitter_seed, failed);
        let before = DrivenView::retried(config, jitter_seed, failed);
        let ms = config.delay(attempt, jitter_seed) as u64;
        let committed = before.push(DrivenStep::Called(outcomes.last())).push(
            DrivenStep::Reserved,
        ).push(DrivenStep::Waited { ms }).push(DrivenStep::Committed);
        let reported = committed.push(DrivenStep::Reported { attempt });
        lemma_unreported_until_the_report(before, outcomes.last(), ms);
        assert(reported.drop_last() =~= committed);
        assert(DrivenStep::reports(reported) =~= Seq::new(
            outcomes.len(),
            |i: int| (i + 1) as u32,
        ));
    }
}

/// What happens in a driven run is added at the end, one thing at a time: nothing that was there
/// before changes, and there is one outcome more exactly if a call has ended.
pub proof fn law_steps_are_added_at_the_end<R>(
    run: DrivenView<R>,
    step: DrivenStep<R>,
    outcome: ResiliencxResult<R>,
)
    ensures
        run.then_step(step).config == run.config,
        run.then_step(step).jitter_seed == run.jitter_seed,
        run.then_step(step).steps == run.steps.push(step),
        run.then_step(DrivenStep::Called(outcome)).outcomes == run.outcomes.push(outcome),
        !(step is Called) ==> run.then_step(step).outcomes == run.outcomes,
{
}

/// A driven run goes on only after transient errors and while attempts are left: wherever it stands,
/// every call so far has failed with one and was not the last that is allowed.
pub proof fn law_driven_runs_go_on_after_transient_errors<R>(run: DrivenView<R>, i: int)
    requires
        run.at_call() || run.at_reservation() || run.in_delay() || run.at_report(),
        0 <= i < run.outcomes.len(),
    ensures
        run.outcomes[i] matches Err(error) && error@.kind == ErrorKind::Transient,
        i + 1 < run.config.max_attempts,
        run.outcomes.len() < run.config.max_attempts,
{
    assert(run.config.wants_retry(run.outcomes[i], i + 1));
}

/// A driven run that waits, or is about to, has gone through all retries before the pending one, and
/// of the pending one nothing but the call, then the reservation, then the delay and the spending of
/// the token: never its report.
pub proof fn law_pending_retry_is_step_by_step<R>(run: DrivenView<R>, i: int)
    requires
        run.at_reservation() || run.in_delay() || run.at_report(),
        0 <= i < run.outcomes.len() - 1,
    ensures
        run.steps[5 * i] == DrivenStep::Called(run.outcomes[i]),
        run.steps[5 * i + 1] is Reserved,
        run.steps[5 * i + 2] matches DrivenStep::Waited { ms } && ms == run.config.delay(
            (i + 1) as u32,
            run.jitter_seed,
        ),
        run.steps[5 * i + 3] is Committed,
        run.steps[5 * i + 4] matches DrivenStep::Reported { attempt } && attempt == i + 1,
{
    lemma_driven_steps(run.config, run.jitter_seed, run.outcomes.drop_last(), i);
    super::jitter::law_delay_fits(run.config, (i + 1) as u32, run.jitter_seed);
}

/// The steps of the pending retry itself.
pub proof fn law_steps_of_the_pending_retry<R>(run: DrivenView<R>)
    requires
        run.at_reservation() || run.in_delay() || run.at_report(),
    ensures
        ({
            let start = 5 * (run.outcomes.len() - 1);
            let count = run.steps.len() - start;
            &&& run.outcomes.len() >= 1
            &&& run.at_reservation() ==> count == 1
            &&& run.in_delay() ==> count == 2
            &&& run.at_report() ==> count == 4
            &&& run.steps[start] == DrivenStep::Called(run.outcomes.last())
            &&& count >= 2 ==> run.steps[start + 1] is Reserved
            &&& count == 4 ==> (run.steps[start + 2] matches DrivenStep::Waited { ms } && ms
                == run.config.delay(run.outcomes.len() as u32, run.jitter_seed))
            &&& count == 4 ==> run.steps[start + 3] is Committed
        }),
{
    lemma_driven_steps(run.config, run.jitter_seed, run.outcomes.drop_last(), 0);
    super::jitter::law_delay_fits(run.config, run.outcomes.len() as u32, run.jitter_seed);
}

} // verus!
