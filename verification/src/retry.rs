//! Retrying an operation.

use crate::budget::{budget_exhausted_error, RetryBudget};
use crate::error::{ErrorKind, ErrorView, ResiliencxError, ResiliencxResult};
use crate::instrumentation::Instrumentation;
use vstd::prelude::*;

pub mod form;
pub mod jitter;
pub mod operation;
pub mod run;
pub mod step;
pub mod value;
pub mod wait;

pub use self::jitter::{
    apply_deterministic_jitter, apply_seeded_jitter, retry_delay_ms, retry_delay_ms_with_seed,
};
pub use self::operation::{Callable, Entry, Operation, Step};
pub use self::run::RetryRun;
pub use self::step::{
    finish_by_deadline, Attempt, AttemptEnd, DrivenStep, DrivenView, PendingRetry, ReadyRetry,
    RetryDelay,
};
pub use self::value::{retry_downcast, retry_ok};
pub use self::wait::{Backoff, NoWait, RecordingWait, Wait};

verus! {

/// How often to try, and how long to wait in between.
#[derive(Debug, Clone, Copy, PartialEq, Eq, Structural)]
pub struct RetryConfig {
    /// How many attempts to make at most, the first call among them.
    pub max_attempts: u32,
    /// The base delay in milliseconds; zero means no delay at all.
    pub base_delay_ms: u64,
    /// How the delay grows.
    pub backoff: Backoff,
    /// How much of the delay jitter may take away, in basis points from 0 to 10000.
    pub jitter_bps: u32,
}

impl Default for RetryConfig {
    fn default() -> (config: RetryConfig)
        ensures
            config == (RetryConfig {
                max_attempts: 3,
                base_delay_ms: 0,
                backoff: Backoff::Constant,
                jitter_bps: 0,
            }),
    {
        RetryConfig { max_attempts: 3, base_delay_ms: 0, backoff: Backoff::Constant, jitter_bps: 0 }
    }
}

impl RetryConfig {
    /// So many attempts with the same delay between them, without jitter.
    #[must_use]
    pub fn fixed(max_attempts: u32, base_delay_ms: u64) -> (config: RetryConfig)
        ensures
            config == (RetryConfig {
                max_attempts,
                base_delay_ms,
                backoff: Backoff::Constant,
                jitter_bps: 0,
            }),
    {
        RetryConfig { max_attempts, base_delay_ms, backoff: Backoff::Constant, jitter_bps: 0 }
    }
}

/// What the caller declares of an operation's side effects. Nothing can check the declaration
/// against the operation.
#[derive(Debug, Clone, Copy, PartialEq, Eq, Structural)]
#[non_exhaustive]
pub enum RetrySafety {
    /// It only reads.
    ReadOnly,
    /// It may have effects, and repeating it is harmless.
    Idempotent,
    /// It has effects that must not be repeated.
    UnsafeSideEffect,
}

impl RetrySafety {
    /// Whether an operation of this sort may run under this configuration.
    pub open spec fn allows(self, config: RetryConfig) -> bool {
        config.max_attempts <= 1 || self != RetrySafety::UnsafeSideEffect
    }

    /// The refusal of a configuration that would repeat unsafe effects.
    pub open spec fn refusal() -> ErrorView {
        ErrorView::plain(ErrorKind::Invalid, "不安全副作用禁止配置多次尝试"@)
    }

    /// Refuses a configuration that would repeat unsafe effects.
    pub fn validate(self, config: &RetryConfig) -> (verdict: ResiliencxResult<()>)
        ensures
            match verdict {
                Ok(_) => self.allows(*config),
                Err(error) => !self.allows(*config) && error@ == RetrySafety::refusal(),
            },
            verdict is Err <==> self == RetrySafety::UnsafeSideEffect && config.max_attempts > 1,
            verdict matches Err(error) ==> error@.kind == ErrorKind::Invalid,
    {
        if config.max_attempts > 1 && self == RetrySafety::UnsafeSideEffect {
            return Err(ResiliencxError::invalid("不安全副作用禁止配置多次尝试"));
        }
        Ok(())
    }
}

/// The loop that every blocking retry runs.
pub fn retry_fn_with_wait_budget_inner<R, I: Instrumentation, W: Wait, C: Callable<R>>(
    config: &RetryConfig,
    instrumentation: &mut I,
    op: &str,
    wait: &mut W,
    budget: Option<&mut RetryBudget>,
    jitter_seed: u64,
    operation: &mut Operation<C, R, I, W>,
) -> (result: ResiliencxResult<R>)
    requires
        config.max_attempts > 0 ==> old(operation).callee().ready(),
    ensures
        RetryRun::new(*config, jitter_seed, budget).performed(
            op@,
            result,
            *old(operation),
            *final(operation),
            *old(instrumentation),
            *final(instrumentation),
            *old(wait),
            *final(wait),
        ),
        budget matches Some(budget) ==> final(budget)@ == budget@.consumed(
            RetryRun::retries(final(operation).outcomes_since(*old(operation))),
        ),
{
    let ghost run = RetryRun::new(*config, jitter_seed, budget);
    let ghost before = operation.outcomes();
    let ghost account = operation.account();
    let mut left: Option<&mut RetryBudget> = budget;
    let ghost mut outcomes: Seq<ResiliencxResult<R>> = Seq::empty();
    let ghost mut entries: Seq<Entry<R, I, W>> = Seq::empty();
    proof {
        self::operation::lemma_called_nothing::<R, C>(old(operation).callee());
        assert(operation.outcomes() =~= before + outcomes);
        assert(operation.account() =~= account + entries);
        assert((account + entries).skip(account.len() as int) =~= entries);
        assert(Entry::steps(entries) =~= run.retried(op@, outcomes));
        self::run::lemma_retried_entries_show(
            run,
            op@,
            outcomes,
            entries,
            *old(instrumentation),
            *old(wait),
            *instrumentation,
            *wait,
        );
        assert((before + outcomes).skip(before.len() as int) =~= outcomes);
        if budget is Some {
            assert(budget->0@.consumed(0) == budget->0@);
        }
    }
    if config.max_attempts == 0 {
        return Err(ResiliencxError::invalid("max_attempts 必须大于或等于 1"));
    }
    let mut attempt: u32 = 1;
    loop
        invariant
            run == RetryRun::new(*config, jitter_seed, budget),
            before == old(operation).outcomes(),
            account == old(operation).account(),
            1 <= attempt <= config.max_attempts,
            outcomes.len() == attempt - 1,
            operation.outcomes() == before + outcomes,
            operation.account() == account + entries,
            Entry::steps(entries) == run.retried(op@, outcomes),
            Entry::lead(entries, *old(instrumentation), *old(wait), *instrumentation, *wait),
            self::operation::called(old(operation).callee(), outcomes, operation.callee()),
            operation.callee().ready(),
            forall|i: int| 0 <= i < outcomes.len() ==> run.goes_on(#[trigger] outcomes[i], i + 1),
            (budget is Some) == (left is Some),
            budget is Some ==> *final(budget->0) == *final(left->0),
            budget is Some ==> left->0@ == budget->0@.consumed(outcomes.len()),
        decreases config.max_attempts - attempt,
    {
        let ghost made = outcomes;
        let ghost callee = operation.callee();
        let outcome: ResiliencxResult<R> = operation.invoke();
        let ghost given = outcome;
        proof {
            self::operation::lemma_called_push(
                old(operation).callee(),
                made,
                callee,
                given,
                operation.callee(),
            );
            outcomes = made.push(given);
            assert(operation.outcomes() =~= before + outcomes);
            assert((before + outcomes).skip(before.len() as int) =~= outcomes);
            assert(outcomes.drop_last() =~= made);
            let led = entries;
            self::run::lemma_retried_entries_show(
                run,
                op@,
                made,
                led,
                *old(instrumentation),
                *old(wait),
                *instrumentation,
                *wait,
            );
            entries = led.push(Entry::Called(given));
            self::operation::lemma_steps_push(led, Entry::Called(given));
            assert(entries.drop_last() =~= led);
            assert(Entry::lead(
                entries,
                *old(instrumentation),
                *old(wait),
                *instrumentation,
                *wait,
            ));
            assert(operation.account() =~= account + entries);
            assert((account + entries).skip(account.len() as int) =~= entries);
        }
        let error: ResiliencxError = match outcome {
            Ok(value) => {
                return Ok(value);
            },
            Err(error) => error,
        };
        if !error.is_retryable() || attempt >= config.max_attempts {
            return Err(error);
        }
        let token: bool = match &mut left {
            Some(budget) => budget.try_consume(),
            None => true,
        };
        proof {
            assert(token == run.grants(attempt as int));
            if !token {
                assert(left->0@ == budget->0@.consumed(made.len()));
            }
        }
        if !token {
            return Err(budget_exhausted_error());
        }
        let ghost observer = *instrumentation;
        let ghost waiter = *wait;
        operation.report(instrumentation, op, attempt);
        let delay_ms: u64 = retry_delay_ms_with_seed(config, attempt, jitter_seed);
        operation.pause(wait, delay_ms);
        proof {
            let called = entries;
            let report = Entry::Reported {
                op: op@,
                attempt,
                observer,
                observer_after: *instrumentation,
            };
            let reported = called.push(report);
            let delay = Entry::Waited { ms: delay_ms, wait: waiter, wait_after: *wait };
            entries = reported.push(delay);
            self::operation::lemma_steps_push(called, report);
            self::operation::lemma_steps_push(reported, delay);
            assert(reported.drop_last() =~= called);
            assert(entries.drop_last() =~= reported);
            assert(Entry::lead(
                reported,
                *old(instrumentation),
                *old(wait),
                *instrumentation,
                waiter,
            ));
            assert(operation.account() =~= account + entries);
        }
        attempt = attempt + 1;
    }
}

/// Retries an operation, waiting in the default way of the chosen kind of wait.
///
/// See [`retry_fn_with_wait`]. The safety of repeating the operation is not asked about;
/// [`retry_fn_safe`] does that.
pub fn retry_fn<W: Wait + Default, R, I: Instrumentation, C: Callable<R>>(
    config: &RetryConfig,
    instrumentation: &mut I,
    op: &str,
    operation: &mut Operation<C, R, I, W>,
) -> (result: ResiliencxResult<R>)
    requires
        config.max_attempts > 0 ==> old(operation).callee().ready(),
    ensures
        exists|wait: W, wait_after: W|
            {
                &&& call_ensures(W::default, (), wait)
                &&& #[trigger] RetryRun::new(*config, 0, None).performed(
                    op@,
                    result,
                    *old(operation),
                    *final(operation),
                    *old(instrumentation),
                    *final(instrumentation),
                    wait,
                    wait_after,
                )
            },
{
    let mut wait: W = W::default();
    retry_fn_with_wait(config, instrumentation, op, &mut wait, operation)
}

/// Retries an operation with the caller's way of waiting.
///
/// - At most `max_attempts` attempts are made, the first call among them.
/// - Only a transient error is retried; any other is returned at once, and so is the last one.
/// - Each retry is reported, and then waited for, before the next attempt.
/// - With `max_attempts` at zero nothing is called and the result is an invalid-input error.
///
/// The safety of repeating the operation is not asked about; [`retry_fn_safe`] does that.
pub fn retry_fn_with_wait<R, I: Instrumentation, W: Wait, C: Callable<R>>(
    config: &RetryConfig,
    instrumentation: &mut I,
    op: &str,
    wait: &mut W,
    operation: &mut Operation<C, R, I, W>,
) -> (result: ResiliencxResult<R>)
    requires
        config.max_attempts > 0 ==> old(operation).callee().ready(),
    ensures
        RetryRun::new(*config, 0, None).performed(
            op@,
            result,
            *old(operation),
            *final(operation),
            *old(instrumentation),
            *final(instrumentation),
            *old(wait),
            *final(wait),
        ),
{
    retry_fn_with_wait_budget(config, instrumentation, op, wait, None, operation)
}

/// Retries an operation within a budget, waiting in the default way of the chosen kind of wait.
///
/// See [`retry_fn_with_wait_budget`]. The safety of repeating the operation is not asked about;
/// [`retry_fn_safe`] does that.
pub fn retry_fn_with_budget<W: Wait + Default, R, I: Instrumentation, C: Callable<R>>(
    config: &RetryConfig,
    instrumentation: &mut I,
    op: &str,
    budget: &mut RetryBudget,
    operation: &mut Operation<C, R, I, W>,
) -> (result: ResiliencxResult<R>)
    requires
        config.max_attempts > 0 ==> old(operation).callee().ready(),
    ensures
        ({
            let run = RetryRun {
                config: *config,
                jitter_seed: 0,
                tokens: Some(old(budget)@.remaining),
            };
            exists|wait: W, wait_after: W|
                {
                    &&& call_ensures(W::default, (), wait)
                    &&& #[trigger] run.performed(
                        op@,
                        result,
                        *old(operation),
                        *final(operation),
                        *old(instrumentation),
                        *final(instrumentation),
                        wait,
                        wait_after,
                    )
                }
        }),
        final(budget)@ == old(budget)@.consumed(
            RetryRun::retries(final(operation).outcomes_since(*old(operation))),
        ),
{
    let mut wait: W = W::default();
    retry_fn_with_wait_budget(config, instrumentation, op, &mut wait, Some(budget), operation)
}

/// Retries an operation with the caller's way of waiting and, where there is one, within a budget:
/// each retry takes a token, and the first one that gets none ends the run with the budget's error.
///
/// The safety of repeating the operation is not asked about; [`retry_fn_safe`] does that.
pub fn retry_fn_with_wait_budget<R, I: Instrumentation, W: Wait, C: Callable<R>>(
    config: &RetryConfig,
    instrumentation: &mut I,
    op: &str,
    wait: &mut W,
    budget: Option<&mut RetryBudget>,
    operation: &mut Operation<C, R, I, W>,
) -> (result: ResiliencxResult<R>)
    requires
        config.max_attempts > 0 ==> old(operation).callee().ready(),
    ensures
        RetryRun::new(*config, 0, budget).performed(
            op@,
            result,
            *old(operation),
            *final(operation),
            *old(instrumentation),
            *final(instrumentation),
            *old(wait),
            *final(wait),
        ),
        budget matches Some(budget) ==> final(budget)@ == budget@.consumed(
            RetryRun::retries(final(operation).outcomes_since(*old(operation))),
        ),
{
    retry_fn_with_wait_budget_inner(config, instrumentation, op, wait, budget, 0, operation)
}

/// What the safe retries have in common: the configuration, the declared safety, the observer and
/// the name of the operation, and optionally a budget and a seed for the jitter.
pub struct RetryContext<'a, I> {
    config: &'a RetryConfig,
    safety: RetrySafety,
    instrumentation: &'a mut I,
    op: &'a str,
    budget: Option<&'a mut RetryBudget>,
    jitter_seed: u64,
}

impl<'a, I: Instrumentation> RetryContext<'a, I> {
    /// The configuration.
    pub closed spec fn config(self) -> RetryConfig {
        *self.config
    }

    /// The declared safety of the operation.
    pub closed spec fn safety(self) -> RetrySafety {
        self.safety
    }

    /// The observer.
    pub closed spec fn instrumentation(self) -> &'a mut I {
        self.instrumentation
    }

    /// The name of the operation.
    pub closed spec fn op(self) -> Seq<char> {
        self.op@
    }

    /// The budget.
    pub closed spec fn budget(self) -> Option<&'a mut RetryBudget> {
        self.budget
    }

    /// The seed of the jitter.
    pub closed spec fn jitter_seed(self) -> u64 {
        self.jitter_seed
    }

    /// The run that the context calls for, as far as its safety allows it.
    pub open spec fn run(self) -> RetryRun {
        RetryRun::new(self.config(), self.jitter_seed(), self.budget())
    }

    /// A context without a budget and with seed zero.
    #[must_use]
    pub fn new(
        config: &'a RetryConfig,
        safety: RetrySafety,
        instrumentation: &'a mut I,
        op: &'a str,
    ) -> (context: RetryContext<'a, I>)
        ensures
            context.config() == *config,
            context.safety() == safety,
            *context.instrumentation() == *old(instrumentation),
            *final(context.instrumentation()) == *final(instrumentation),
            context.op() == op@,
            context.budget() is None,
            context.jitter_seed() == 0,
    {
        RetryContext { config, safety, instrumentation, op, budget: None, jitter_seed: 0 }
    }

    /// The same context with a budget.
    #[must_use]
    pub fn with_budget(self, budget: &'a mut RetryBudget) -> (context: RetryContext<'a, I>)
        ensures
            context.config() == self.config(),
            context.safety() == self.safety(),
            *context.instrumentation() == *self.instrumentation(),
            *final(context.instrumentation()) == *final(self.instrumentation()),
            context.op() == self.op(),
            context.budget() is Some,
            *context.budget()->0 == *old(budget),
            *final(context.budget()->0) == *final(budget),
            context.jitter_seed() == self.jitter_seed(),
    {
        RetryContext {
            config: self.config,
            safety: self.safety,
            instrumentation: self.instrumentation,
            op: self.op,
            budget: Some(budget),
            jitter_seed: self.jitter_seed,
        }
    }

    /// The same context with a seed for the jitter.
    #[must_use]
    pub fn with_jitter_seed(self, jitter_seed: u64) -> (context: RetryContext<'a, I>)
        ensures
            context.config() == self.config(),
            context.safety() == self.safety(),
            *context.instrumentation() == *self.instrumentation(),
            *final(context.instrumentation()) == *final(self.instrumentation()),
            context.op() == self.op(),
            (context.budget() is Some) == (self.budget() is Some),
            self.budget() is Some ==> {
                &&& *context.budget()->0 == *self.budget()->0
                &&& *final(context.budget()->0) == *final(self.budget()->0)
            },
            context.jitter_seed() == jitter_seed,
    {
        RetryContext {
            config: self.config,
            safety: self.safety,
            instrumentation: self.instrumentation,
            op: self.op,
            budget: self.budget,
            jitter_seed,
        }
    }

    /// The first attempt of a run under this context that is driven from outside, provided that
    /// its declared safety allows it. The budget is the driver's to bring.
    pub fn first_attempt<R>(&self) -> (attempt: ResiliencxResult<Attempt<R>>)
        ensures
            match attempt {
                Ok(attempt) => {
                    &&& self.safety().allows(self.config())
                    &&& self.config().max_attempts >= 1
                    &&& attempt@ == (DrivenView::<R> {
                        config: self.config(),
                        jitter_seed: self.jitter_seed(),
                        outcomes: Seq::empty(),
                        steps: Seq::empty(),
                    })
                },
                Err(error) => if self.safety().allows(self.config()) {
                    self.config().max_attempts == 0 && error@ == RetryConfig::no_attempts()
                } else {
                    error@ == RetrySafety::refusal()
                },
            },
    {
        Attempt::first_safe(self.config, self.safety, self.jitter_seed)
    }

    /// Whom to report the retries of a driven run to, and by what name.
    #[must_use]
    pub fn into_observer(self) -> (observer: (&'a mut I, &'a str))
        ensures
            *observer.0 == *self.instrumentation(),
            *final(observer.0) == *final(self.instrumentation()),
            observer.1@ == self.op(),
            self.budget() is Some ==> *final(self.budget()->0) == *self.budget()->0,
    {
        (self.instrumentation, self.op)
    }

    pub(crate) fn retry_config(&self) -> (config: &RetryConfig)
        ensures
            *config == self.config(),
    {
        self.config
    }

    pub(crate) fn declared_safety(&self) -> (safety: RetrySafety)
        ensures
            safety == self.safety(),
    {
        self.safety
    }

    pub(crate) fn op_name(&self) -> (op: &str)
        ensures
            op@ == self.op(),
    {
        self.op
    }

    pub(crate) fn has_budget(&self) -> (has: bool)
        ensures
            has == (self.budget() is Some),
    {
        match &self.budget {
            Some(_) => true,
            None => false,
        }
    }

    pub(crate) fn seed(&self) -> (seed: u64)
        ensures
            seed == self.jitter_seed(),
    {
        self.jitter_seed
    }
}

/// Retries an operation under a context, provided that its declared safety allows it: with more
/// than one attempt configured, an operation with unsafe effects is refused before it is called
/// once.
pub fn retry_fn_safe<R, I: Instrumentation, W: Wait, C: Callable<R>>(
    context: RetryContext<'_, I>,
    wait: &mut W,
    operation: &mut Operation<C, R, I, W>,
) -> (result: ResiliencxResult<R>)
    requires
        context.safety().allows(context.config()) && context.config().max_attempts > 0 ==> old(
            operation,
        ).callee().ready(),
    ensures
        !context.safety().allows(context.config()) ==> {
            &&& result matches Err(error) && error@ == RetrySafety::refusal()
            &&& *final(operation) == *old(operation)
            &&& *final(context.instrumentation()) == *context.instrumentation()
            &&& context.budget() is Some ==> *final(context.budget()->0) == *context.budget()->0
            &&& *final(wait) == *old(wait)
        },
        context.safety().allows(context.config()) ==> {
            &&& context.run().performed(
                context.op(),
                result,
                *old(operation),
                *final(operation),
                *context.instrumentation(),
                *final(context.instrumentation()),
                *old(wait),
                *final(wait),
            )
            &&& context.budget() matches Some(budget) ==> final(budget)@ == budget@.consumed(
                RetryRun::retries(final(operation).outcomes_since(*old(operation))),
            )
        },
{
    match context.safety.validate(context.config) {
        Ok(_) => {},
        Err(error) => {
            return Err(error);
        },
    }
    retry_fn_with_wait_budget_inner(
        context.config,
        context.instrumentation,
        context.op,
        wait,
        context.budget,
        context.jitter_seed,
        operation,
    )
}

/// Whatever the operation does, a single attempt is allowed, and so is any number of attempts of
/// an operation that is safe to repeat.
pub proof fn law_safe_or_single_is_allowed(safety: RetrySafety, config: RetryConfig)
    ensures
        safety != RetrySafety::UnsafeSideEffect ==> safety.allows(config),
        config.max_attempts <= 1 ==> safety.allows(config),
        safety == RetrySafety::UnsafeSideEffect && config.max_attempts > 1 ==> !safety.allows(
            config,
        ),
{
}

/// Under a context that was given neither a budget nor a seed, and whose safety allows it, a safe
/// retry is the same run as [`retry_fn_with_wait`] makes: it ends with the same result, having
/// done the same to the operation, the observer and the wait.
pub proof fn law_fresh_context_is_a_plain_retry<C: Callable<R>, R, I: Instrumentation, W: Wait>(
    context: RetryContext<'_, I>,
    result: ResiliencxResult<R>,
    operation: Operation<C, R, I, W>,
    operation_after: Operation<C, R, I, W>,
    observer_after: I,
    wait: W,
    wait_after: W,
)
    requires
        context.budget() is None,
        context.jitter_seed() == 0,
        context.safety().allows(context.config()),
    ensures
        context.run().performed(
            context.op(),
            result,
            operation,
            operation_after,
            *context.instrumentation(),
            observer_after,
            wait,
            wait_after,
        ) <==> RetryRun::new(context.config(), 0, None).performed(
            context.op(),
            result,
            operation,
            operation_after,
            *context.instrumentation(),
            observer_after,
            wait,
            wait_after,
        ),
{
}

/// An operation with unsafe effects is never repeated: under every context that its safety allows
/// a run calls it at most once, asks for no delay and reports no retry.
pub proof fn law_unsafe_operations_run_at_most_once<R, I: Instrumentation>(
    context: RetryContext<'_, I>,
    outcomes: Seq<ResiliencxResult<R>>,
)
    requires
        context.safety() == RetrySafety::UnsafeSideEffect,
        context.safety().allows(context.config()),
        context.run().complete(outcomes),
    ensures
        outcomes.len() <= 1,
        context.config().max_attempts == 1 ==> outcomes.len() == 1,
        RetryRun::retries(outcomes) == 0,
        context.run().steps(context.op(), outcomes).len() == outcomes.len(),
{
    self::run::law_attempts_are_bounded(context.run(), outcomes);
}

/// A refusal for the sake of safety is an invalid-input error that says so.
pub proof fn law_refusal_is_invalid_input()
    ensures
        RetrySafety::refusal().kind == ErrorKind::Invalid,
        RetrySafety::refusal().context == "不安全副作用禁止配置多次尝试"@,
        RetrySafety::refusal().retry_after is None,
        RetrySafety::refusal().source is None,
{
}

/// A context calls for a run with its configuration, its seed and the tokens of its budget as they
/// are, whatever else it was given.
pub proof fn law_context_runs_as_it_was_made<'a, I: Instrumentation>(context: RetryContext<'a, I>)
    ensures
        context.run().config == context.config(),
        context.run().jitter_seed == context.jitter_seed(),
        context.budget() is Some <==> context.run().tokens is Some,
        context.budget() is Some ==> context.run().tokens->0 == context.budget()->0@.remaining,
{
}

/// Under a context an operation that keeps failing for passing reasons is tried as often as the
/// context's own configuration and budget allow, and no less: `max_attempts` times, or, where the
/// budget runs out before that, once more than it has tokens.
pub proof fn law_safe_retry_uses_all_it_may<'a, R, I: Instrumentation>(
    context: RetryContext<'a, I>,
    outcomes: Seq<ResiliencxResult<R>>,
)
    requires
        context.run().complete(outcomes),
        forall|i: int|
            0 <= i < outcomes.len() ==> (#[trigger] outcomes[i] matches Err(error) && error@.kind
                == ErrorKind::Transient),
    ensures
        context.budget() is None ==> outcomes.len() == context.config().max_attempts,
        context.budget() matches Some(budget) ==> outcomes.len() == if budget@.remaining + 1
            < context.config().max_attempts {
            budget@.remaining + 1
        } else {
            context.config().max_attempts as nat
        },
{
    self::run::law_failing_runs_use_all_they_may(context.run(), outcomes);
}

} // verus!
