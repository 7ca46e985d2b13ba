//! A circuit breaker with three states and no clock: what moves it on is counted.
//!
//! - **Closed**: calls go through; `failure_threshold` transient failures in a row open it.
//! - **Open**: calls are refused; after `open_to_half_open_after_rejects` refusals it is half open.
//! - **Half open**: calls go through on trial; `success_threshold` successes close it, and one
//!   transient failure opens it again.

use crate::error::{ErrorKind, ErrorView, ResiliencxError, ResiliencxResult};
use crate::instrumentation::{Event, Instrumentation};
use vstd::prelude::*;

verus! {

/// The state of a circuit breaker.
#[non_exhaustive]
#[derive(Debug, Clone, Copy, PartialEq, Eq, Structural)]
pub enum CircuitState {
    /// Calls go through.
    Closed,
    /// Calls are refused.
    Open,
    /// Calls go through on trial.
    HalfOpen,
}

/// The thresholds of a circuit breaker; each must be at least one.
#[derive(Debug, Clone, Copy, PartialEq, Eq, Structural)]
pub struct CircuitConfig {
    /// How many failures in a row open a closed circuit.
    pub failure_threshold: u32,
    /// How many successes close a half-open circuit.
    pub success_threshold: u32,
    /// How many refusals turn an open circuit half open.
    pub open_to_half_open_after_rejects: u32,
}

impl Default for CircuitConfig {
    fn default() -> (config: CircuitConfig)
        ensures
            config == (CircuitConfig {
                failure_threshold: 5,
                success_threshold: 2,
                open_to_half_open_after_rejects: 3,
            }),
    {
        CircuitConfig {
            failure_threshold: 5,
            success_threshold: 2,
            open_to_half_open_after_rejects: 3,
        }
    }
}

impl CircuitConfig {
    /// Every threshold is at least one.
    pub open spec fn wf(self) -> bool {
        &&& self.failure_threshold >= 1
        &&& self.success_threshold >= 1
        &&& self.open_to_half_open_after_rejects >= 1
    }
}

/// How a call ends, as far as a breaker cares.
pub enum Ending {
    /// It succeeds.
    Success,
    /// It fails for a passing reason.
    Transient,
    /// It fails for any other reason.
    Permanent,
}

impl Ending {
    /// How a call with this result has ended.
    pub open spec fn of<R>(result: ResiliencxResult<R>) -> Ending {
        match result {
            Ok(_) => Ending::Success,
            Err(error) => if error@.retryable() {
                Ending::Transient
            } else {
                Ending::Permanent
            },
        }
    }

    /// How many of these calls end in a passing failure.
    pub open spec fn failures(endings: Seq<Ending>) -> nat
        decreases endings.len(),
    {
        if endings.len() == 0 {
            0
        } else {
            Ending::failures(endings.drop_last()) + if endings.last() == Ending::Transient {
                1nat
            } else {
                0nat
            }
        }
    }
}

/// A state together with the one count that matters in it.
pub enum Phase {
    /// Closed, after this many failures in a row.
    Closed {
        /// The failures in a row.
        failures: nat,
    },
    /// Open, after this many refusals.
    Open {
        /// The refusals.
        rejects: nat,
    },
    /// Half open, after this many successes.
    HalfOpen {
        /// The successes.
        successes: nat,
    },
}

/// A circuit breaker as its callers see it.
pub struct CircuitView {
    /// The thresholds.
    pub config: CircuitConfig,
    /// Where it stands.
    pub phase: Phase,
}

impl CircuitView {
    /// The thresholds are valid and the count has not reached the one that applies.
    pub open spec fn wf(self) -> bool {
        &&& self.config.wf()
        &&& match self.phase {
            Phase::Closed { failures } => failures < self.config.failure_threshold,
            Phase::Open { rejects } => rejects < self.config.open_to_half_open_after_rejects,
            Phase::HalfOpen { successes } => successes < self.config.success_threshold,
        }
    }

    /// A new breaker is closed and has counted nothing.
    pub open spec fn initial(config: CircuitConfig) -> CircuitView {
        CircuitView { config, phase: Phase::Closed { failures: 0 } }
    }

    /// The state alone.
    pub open spec fn state(self) -> CircuitState {
        match self.phase {
            Phase::Closed { .. } => CircuitState::Closed,
            Phase::Open { .. } => CircuitState::Open,
            Phase::HalfOpen { .. } => CircuitState::HalfOpen,
        }
    }

    /// The breaker in another phase.
    pub open spec fn enter(self, phase: Phase) -> CircuitView {
        CircuitView { phase, ..self }
    }

    /// After a refused call.
    pub open spec fn rejected(self) -> CircuitView {
        match self.phase {
            Phase::Open { rejects } => if rejects + 1
                >= self.config.open_to_half_open_after_rejects {
                self.enter(Phase::HalfOpen { successes: 0 })
            } else {
                self.enter(Phase::Open { rejects: rejects + 1 })
            },
            _ => self,
        }
    }

    /// After a call that succeeded.
    pub open spec fn succeeded(self) -> CircuitView {
        match self.phase {
            Phase::Closed { .. } => self.enter(Phase::Closed { failures: 0 }),
            Phase::HalfOpen { successes } => if successes + 1 >= self.config.success_threshold {
                self.enter(Phase::Closed { failures: 0 })
            } else {
                self.enter(Phase::HalfOpen { successes: successes + 1 })
            },
            Phase::Open { .. } => self,
        }
    }

    /// After a call that failed for a passing reason.
    pub open spec fn failed(self) -> CircuitView {
        match self.phase {
            Phase::Closed { failures } => if failures + 1 >= self.config.failure_threshold {
                self.enter(Phase::Open { rejects: 0 })
            } else {
                self.enter(Phase::Closed { failures: failures + 1 })
            },
            Phase::HalfOpen { .. } => self.enter(Phase::Open { rejects: 0 }),
            Phase::Open { .. } => self,
        }
    }

    /// After one call that ends like this if it is let through. An open breaker refuses it; an
    /// error that is not transient says nothing of the callee's health and leaves the breaker as
    /// it is.
    pub open spec fn called(self, ending: Ending) -> CircuitView {
        if self.state() == CircuitState::Open {
            self.rejected()
        } else {
            match ending {
                Ending::Success => self.succeeded(),
                Ending::Transient => self.failed(),
                Ending::Permanent => self,
            }
        }
    }

    /// After `count` calls that would all end like this.
    pub open spec fn called_times(self, ending: Ending, count: nat) -> CircuitView
        decreases count,
    {
        if count == 0 {
            self
        } else {
            self.called_times(ending, (count - 1) as nat).called(ending)
        }
    }

    /// After calls that would end like these, one by one.
    pub open spec fn called_all(self, endings: Seq<Ending>) -> CircuitView
        decreases endings.len(),
    {
        if endings.len() == 0 {
            self
        } else {
            self.called_all(endings.drop_last()).called(endings.last())
        }
    }

    /// What is reported when the breaker goes from here to `next`: that it opened, or that it
    /// closed after having been open.
    pub open spec fn reports(self, next: CircuitView, op: Seq<char>) -> Seq<Event> {
        match (self.phase, next.phase) {
            (Phase::Closed { .. }, Phase::Open { .. }) => seq![Event::CircuitOpen { op }],
            (Phase::HalfOpen { .. }, Phase::Open { .. }) => seq![Event::CircuitOpen { op }],
            (Phase::HalfOpen { .. }, Phase::Closed { .. }) => seq![Event::CircuitClose { op }],
            _ => seq![],
        }
    }
}

/// A circuit breaker.
#[derive(Debug)]
pub struct CircuitBreaker {
    config: CircuitConfig,
    state: CircuitState,
    consecutive_failures: u32,
    consecutive_successes: u32,
    rejects_in_open: u32,
}

impl View for CircuitBreaker {
    type V = CircuitView;

    closed spec fn view(&self) -> CircuitView {
        CircuitView {
            config: self.config,
            phase: match self.state {
                CircuitState::Closed => Phase::Closed {
                    failures: self.consecutive_failures as nat,
                },
                CircuitState::Open => Phase::Open { rejects: self.rejects_in_open as nat },
                CircuitState::HalfOpen => Phase::HalfOpen {
                    successes: self.consecutive_successes as nat,
                },
            },
        }
    }
}

impl Clone for CircuitBreaker {
    fn clone(&self) -> (copy: CircuitBreaker)
        ensures
            copy == *self,
    {
        proof {
            use_type_invariant(self);
        }
        CircuitBreaker {
            config: self.config,
            state: self.state,
            consecutive_failures: self.consecutive_failures,
            consecutive_successes: self.consecutive_successes,
            rejects_in_open: self.rejects_in_open,
        }
    }
}

impl CircuitBreaker {
    #[verifier::type_invariant]
    spec fn counts_below_thresholds(self) -> bool {
        self@.wf()
    }

    /// A closed breaker, if every threshold is at least one.
    pub fn new(config: CircuitConfig) -> (breaker: ResiliencxResult<CircuitBreaker>)
        ensures
            match breaker {
                Ok(breaker) => config.wf() && breaker@ == CircuitView::initial(config),
                Err(error) => !config.wf() && error@ == ErrorView::plain(
                    ErrorKind::Invalid,
                    "circuit thresholds must be >= 1 (failure/success/open_to_half_open)"@,
                ),
            },
            breaker is Ok <==> config.failure_threshold >= 1 && config.success_threshold >= 1
                && config.open_to_half_open_after_rejects >= 1,
            breaker matches Ok(breaker) ==> {
                &&& breaker@.config == config
                &&& breaker@.phase == (Phase::Closed { failures: 0 })
            },
    {
        if config.failure_threshold == 0 || config.success_threshold == 0
            || config.open_to_half_open_after_rejects == 0 {
            return Err(
                ResiliencxError::invalid(
                    "circuit thresholds must be >= 1 (failure/success/open_to_half_open)",
                ),
            );
        }
        Ok(
            CircuitBreaker {
                config,
                state: CircuitState::Closed,
                consecutive_failures: 0,
                consecutive_successes: 0,
                rejects_in_open: 0,
            },
        )
    }

    /// The current state.
    #[must_use]
    pub fn state(&self) -> (state: CircuitState)
        ensures
            state == self@.state(),
    {
        self.state
    }

    /// The thresholds.
    #[must_use]
    pub fn config(&self) -> (config: CircuitConfig)
        ensures
            config == self@.config,
            config.wf(),
    {
        proof {
            use_type_invariant(self);
        }
        self.config
    }

    /// Calls `f` under the protection of the breaker.
    ///
    /// An open breaker does not call `f`, as nothing is asked of `f` there: it refuses, and counts
    /// the refusal. Otherwise the result is that of `f`, and moves the breaker on.
    pub fn call<R, I: Instrumentation, F: FnOnce() -> ResiliencxResult<R>>(
        &mut self,
        instrumentation: &mut I,
        op: &str,
        f: F,
    ) -> (result: ResiliencxResult<R>)
        requires
            old(self)@.state() != CircuitState::Open ==> f.requires(()),
        ensures
            old(self)@.state() == CircuitState::Open ==> (result matches Err(error) && error@
                == ErrorView::plain(ErrorKind::Unavailable, "熔断器已打开"@)),
            old(self)@.state() != CircuitState::Open ==> f.ensures((), result),
            final(self)@ == old(self)@.called(Ending::of(result)),
            final(self)@.config == old(self)@.config,
            old(self)@.state() != CircuitState::Open && (result matches Err(error) && error@.kind
                != ErrorKind::Transient) ==> {
                &&& final(self)@ == old(self)@
                &&& *final(instrumentation) == *old(instrumentation)
            },
            crate::instrumentation::observed(
                *old(instrumentation),
                old(self)@.reports(final(self)@, op@),
                *final(instrumentation),
            ),
    {
        proof {
            use_type_invariant(&*self);
            crate::instrumentation::lemma_observed_nothing(*old(instrumentation));
        }
        match self.state {
            CircuitState::Open => {
                self.on_reject();
                return Err(ResiliencxError::unavailable("熔断器已打开"));
            },
            CircuitState::Closed | CircuitState::HalfOpen => {},
        }
        match f() {
            Ok(value) => {
                self.on_success(instrumentation, op);
                Ok(value)
            },
            Err(error) => {
                // Only a transient failure counts: any other error is the caller's own and says
                // nothing of the callee.
                if error.is_retryable() {
                    self.on_failure(instrumentation, op);
                }
                Err(error)
            },
        }
    }

    fn on_reject(&mut self)
        requires
            old(self)@.state() == CircuitState::Open,
        ensures
            final(self)@ == old(self)@.rejected(),
    {
        proof {
            use_type_invariant(&*self);
        }
        let rejects: u32 = self.rejects_in_open + 1;
        if rejects >= self.config.open_to_half_open_after_rejects {
            *self = CircuitBreaker {
                config: self.config,
                state: CircuitState::HalfOpen,
                consecutive_failures: 0,
                consecutive_successes: 0,
                rejects_in_open: 0,
            };
        } else {
            self.rejects_in_open = rejects;
        }
    }

    fn on_success<I: Instrumentation>(&mut self, instrumentation: &mut I, op: &str)
        requires
            old(self)@.state() != CircuitState::Open,
        ensures
            final(self)@ == old(self)@.succeeded(),
            crate::instrumentation::observed(
                *old(instrumentation),
                old(self)@.reports(final(self)@, op@),
                *final(instrumentation),
            ),
    {
        proof {
            use_type_invariant(&*self);
            crate::instrumentation::lemma_observed_nothing(*old(instrumentation));
        }
        if self.state == CircuitState::HalfOpen {
            let successes: u32 = self.consecutive_successes + 1;
            if successes >= self.config.success_threshold {
                *self = CircuitBreaker {
                    config: self.config,
                    state: CircuitState::Closed,
                    consecutive_failures: 0,
                    consecutive_successes: 0,
                    rejects_in_open: 0,
                };
                instrumentation.record_circuit_close(op);
                proof {
                    crate::instrumentation::lemma_observed_push(
                        *old(instrumentation),
                        seq![],
                        *old(instrumentation),
                        Event::CircuitClose { op: op@ },
                        *instrumentation,
                    );
                }
            } else {
                self.consecutive_successes = successes;
            }
        } else {
            self.consecutive_failures = 0;
        }
    }

    fn on_failure<I: Instrumentation>(&mut self, instrumentation: &mut I, op: &str)
        requires
            old(self)@.state() != CircuitState::Open,
        ensures
            final(self)@ == old(self)@.failed(),
            crate::instrumentation::observed(
                *old(instrumentation),
                old(self)@.reports(final(self)@, op@),
                *final(instrumentation),
            ),
    {
        proof {
            use_type_invariant(&*self);
            crate::instrumentation::lemma_observed_nothing(*old(instrumentation));
        }
        if self.state == CircuitState::HalfOpen {
            self.trip_open(instrumentation, op);
        } else {
            let failures: u32 = self.consecutive_failures + 1;
            if failures >= self.config.failure_threshold {
                self.trip_open(instrumentation, op);
            } else {
                self.consecutive_failures = failures;
            }
        }
    }

    fn trip_open<I: Instrumentation>(&mut self, instrumentation: &mut I, op: &str)
        ensures
            final(self)@ == old(self)@.enter(Phase::Open { rejects: 0 }),
            crate::instrumentation::observed(
                *old(instrumentation),
                seq![Event::CircuitOpen { op: op@ }],
                *final(instrumentation),
            ),
    {
        proof {
            use_type_invariant(&*self);
            crate::instrumentation::lemma_observed_nothing(*old(instrumentation));
        }
        *self = CircuitBreaker {
            config: self.config,
            state: CircuitState::Open,
            consecutive_failures: 0,
            consecutive_successes: 0,
            rejects_in_open: 0,
        };
        instrumentation.record_circuit_open(op);
        proof {
            crate::instrumentation::lemma_observed_push(
                *old(instrumentation),
                seq![],
                *old(instrumentation),
                Event::CircuitOpen { op: op@ },
                *instrumentation,
            );
        }
    }
}

/// Whatever a call does, the breaker stays well formed and keeps its thresholds.
pub proof fn law_calls_keep_the_breaker_well_formed(breaker: CircuitView, ending: Ending)
    requires
        breaker.wf(),
    ensures
        breaker.called(ending).wf(),
        breaker.called(ending).config == breaker.config,
{
}

/// A closed breaker that has counted nothing opens at exactly the `failure_threshold`-th transient
/// failure in a row, and not before.
pub proof fn law_opens_at_the_failure_threshold(config: CircuitConfig, count: nat)
    requires
        config.wf(),
        count <= config.failure_threshold,
    ensures
        CircuitView::initial(config).called_times(Ending::Transient, count) == if count
            < config.failure_threshold {
            CircuitView::initial(config).enter(Phase::Closed { failures: count })
        } else {
            CircuitView::initial(config).enter(Phase::Open { rejects: 0 })
        },
    decreases count,
{
    if count > 0 {
        law_opens_at_the_failure_threshold(config, (count - 1) as nat);
    }
}

/// An open breaker refuses exactly `open_to_half_open_after_rejects` calls, whatever each of them
/// would have done, and is half open then.
pub proof fn law_half_opens_after_the_refusals(breaker: CircuitView, endings: Seq<Ending>)
    requires
        breaker.config.wf(),
        breaker.phase == (Phase::Open { rejects: 0 }),
        endings.len() <= breaker.config.open_to_half_open_after_rejects,
    ensures
        breaker.called_all(endings) == if endings.len()
            < breaker.config.open_to_half_open_after_rejects {
            breaker.enter(Phase::Open { rejects: endings.len() })
        } else {
            breaker.enter(Phase::HalfOpen { successes: 0 })
        },
    decreases endings.len(),
{
    if endings.len() > 0 {
        law_half_opens_after_the_refusals(breaker, endings.drop_last());
    }
}

/// A half-open breaker closes at exactly the `success_threshold`-th success, and not before.
pub proof fn law_closes_at_the_success_threshold(breaker: CircuitView, count: nat)
    requires
        breaker.config.wf(),
        breaker.phase == (Phase::HalfOpen { successes: 0 }),
        count <= breaker.config.success_threshold,
    ensures
        breaker.called_times(Ending::Success, count) == if count
            < breaker.config.success_threshold {
            breaker.enter(Phase::HalfOpen { successes: count })
        } else {
            CircuitView::initial(breaker.config)
        },
    decreases count,
{
    if count > 0 {
        law_closes_at_the_success_threshold(breaker, (count - 1) as nat);
    }
}

/// What a closed breaker has counted are the transient failures since it closed or last saw a
/// success, whatever other errors came in between.
pub proof fn law_failures_are_counted_since_the_last_success(
    breaker: CircuitView,
    endings: Seq<Ending>,
)
    requires
        breaker.config.wf(),
        breaker.phase == (Phase::Closed { failures: 0 }),
        forall|i: int| 0 <= i < endings.len() ==> #[trigger] endings[i] != Ending::Success,
        Ending::failures(endings) < breaker.config.failure_threshold,
    ensures
        breaker.called_all(endings) == breaker.enter(
            Phase::Closed { failures: Ending::failures(endings) },
        ),
    decreases endings.len(),
{
    if endings.len() > 0 {
        let before = endings.drop_last();
        assert forall|i: int| 0 <= i < before.len() implies #[trigger] before[i]
            != Ending::Success by {
            assert(before[i] == endings[i]);
        }
        law_failures_are_counted_since_the_last_success(breaker, before);
        assert(endings.last() == endings[endings.len() - 1]);
    }
}

/// A transient failure opens a closed breaker exactly when it is the one that reaches the
/// threshold, which is reported once; before that it is only counted, and nothing is reported.
pub proof fn law_closed_failure_counts_or_opens(breaker: CircuitView, failures: nat, op: Seq<char>)
    requires
        breaker.wf(),
        breaker.phase == (Phase::Closed { failures }),
    ensures
        breaker.called(Ending::Transient) == breaker.failed(),
        failures + 1 == breaker.config.failure_threshold ==> {
            &&& breaker.failed() == breaker.enter(Phase::Open { rejects: 0 })
            &&& breaker.reports(breaker.failed(), op) == seq![Event::CircuitOpen { op }]
        },
        failures + 1 != breaker.config.failure_threshold ==> {
            &&& breaker.failed() == breaker.enter(Phase::Closed { failures: failures + 1 })
            &&& breaker.reports(breaker.failed(), op) == Seq::<Event>::empty()
        },
{
}

/// A success closes a half-open breaker exactly when it is the one that reaches the threshold,
/// which is reported once; before that it is only counted, and nothing is reported.
pub proof fn law_half_open_success_counts_or_closes(
    breaker: CircuitView,
    successes: nat,
    op: Seq<char>,
)
    requires
        breaker.wf(),
        breaker.phase == (Phase::HalfOpen { successes }),
    ensures
        breaker.called(Ending::Success) == breaker.succeeded(),
        successes + 1 == breaker.config.success_threshold ==> {
            &&& breaker.succeeded() == CircuitView::initial(breaker.config)
            &&& breaker.reports(breaker.succeeded(), op) == seq![Event::CircuitClose { op }]
        },
        successes + 1 != breaker.config.success_threshold ==> {
            &&& breaker.succeeded() == breaker.enter(Phase::HalfOpen { successes: successes + 1 })
            &&& breaker.reports(breaker.succeeded(), op) == Seq::<Event>::empty()
        },
{
}

/// A half-open breaker opens again at the first transient failure, however many successes came
/// before, and reports that once; the refusals are counted anew.
pub proof fn law_half_open_failure_reopens(breaker: CircuitView, op: Seq<char>)
    requires
        breaker.state() == CircuitState::HalfOpen,
    ensures
        breaker.failed() == breaker.enter(Phase::Open { rejects: 0 }),
        breaker.called(Ending::Transient) == breaker.failed(),
        breaker.reports(breaker.failed(), op) == seq![Event::CircuitOpen { op }],
{
}

/// A success in the closed state wipes out the failures counted so far, and reports nothing.
pub proof fn law_success_resets_the_failures(breaker: CircuitView, op: Seq<char>)
    requires
        breaker.state() == CircuitState::Closed,
    ensures
        breaker.succeeded() == CircuitView::initial(breaker.config),
        breaker.called(Ending::Success) == breaker.succeeded(),
        breaker.reports(breaker.succeeded(), op) == Seq::<Event>::empty(),
{
}

/// A closed breaker opens at exactly the transient failure that is the `failure_threshold`-th since
/// it closed or last saw a success, whatever other errors came in between, and reports that once.
/// Every failure before that one leaves it closed and is not reported.
pub proof fn law_opens_at_the_last_counted_failure(
    breaker: CircuitView,
    endings: Seq<Ending>,
    op: Seq<char>,
)
    requires
        breaker.config.wf(),
        breaker.phase == (Phase::Closed { failures: 0 }),
        forall|i: int| 0 <= i < endings.len() ==> #[trigger] endings[i] != Ending::Success,
        Ending::failures(endings) < breaker.config.failure_threshold,
    ensures
        ({
            let before = breaker.called_all(endings);
            let after = before.called(Ending::Transient);
            &&& before.state() == CircuitState::Closed
            &&& after == before.failed()
            &&& if Ending::failures(endings) + 1 == breaker.config.failure_threshold {
                &&& after.phase == (Phase::Open { rejects: 0 })
                &&& before.reports(after, op) == seq![Event::CircuitOpen { op }]
            } else {
                &&& after.phase == (Phase::Closed { failures: Ending::failures(endings) + 1 })
                &&& before.reports(after, op) == Seq::<Event>::empty()
            }
        }),
{
    law_failures_are_counted_since_the_last_success(breaker, endings);
}

/// A failure on trial forgets all that was counted: the breaker reports that it opened, refuses the
/// full number of calls again, and then needs the full number of successes again.
pub proof fn law_failed_trial_starts_all_over(
    breaker: CircuitView,
    refused: Seq<Ending>,
    successes: nat,
    op: Seq<char>,
)
    requires
        breaker.wf(),
        breaker.state() == CircuitState::HalfOpen,
        refused.len() <= breaker.config.open_to_half_open_after_rejects,
        successes <= breaker.config.success_threshold,
    ensures
        ({
            let reopened = breaker.failed();
            let later = reopened.called_all(refused);
            &&& reopened.state() == CircuitState::Open
            &&& breaker.reports(reopened, op) == seq![Event::CircuitOpen { op }]
            &&& if refused.len() < breaker.config.open_to_half_open_after_rejects {
                later.state() == CircuitState::Open
            } else {
                &&& later.state() == CircuitState::HalfOpen
                &&& later.called_times(Ending::Success, successes).state() == if successes
                    < breaker.config.success_threshold {
                    CircuitState::HalfOpen
                } else {
                    CircuitState::Closed
                }
            }
        }),
{
    let reopened = breaker.failed();
    law_half_opens_after_the_refusals(reopened, refused);
    if refused.len() == breaker.config.open_to_half_open_after_rejects {
        law_closes_at_the_success_threshold(reopened.called_all(refused), successes);
    }
}

/// A success that closes a half-open breaker, and one that finds it closed, forgets all failures:
/// from there it takes exactly `failure_threshold` transient failures in a row to open it.
pub proof fn law_success_demands_the_full_threshold(breaker: CircuitView, failures: nat)
    requires
        breaker.wf(),
        breaker.succeeded().state() == CircuitState::Closed,
        failures <= breaker.config.failure_threshold,
    ensures
        breaker.succeeded() == CircuitView::initial(breaker.config),
        breaker.succeeded().called_times(Ending::Transient, failures).state() == if failures
            < breaker.config.failure_threshold {
            CircuitState::Closed
        } else {
            CircuitState::Open
        },
{
    law_opens_at_the_failure_threshold(breaker.config, failures);
}

/// As long as no call is refused, errors that are not transient might as well not have happened:
/// they neither count nor reset what was counted.
pub proof fn law_permanent_errors_do_not_count(breaker: CircuitView, endings: Seq<Ending>)
    requires
        forall|i: int|
            0 <= i < endings.len() ==> (#[trigger] breaker.called_all(endings.take(i))).state()
                != CircuitState::Open,
    ensures
        breaker.called_all(endings) == breaker.called_all(
            endings.filter(|ending: Ending| ending != Ending::Permanent),
        ),
    decreases endings.len(),
{
    let counts = |ending: Ending| ending != Ending::Permanent;
    reveal(Seq::filter);
    if endings.len() > 0 {
        let before = endings.drop_last();
        assert(before =~= endings.take(endings.len() - 1));
        assert forall|i: int| 0 <= i < before.len() implies (#[trigger] breaker.called_all(
            before.take(i),
        )).state() != CircuitState::Open by {
            assert(before.take(i) =~= endings.take(i));
        }
        law_permanent_errors_do_not_count(breaker, before);
        let kept = before.filter(counts);
        if counts(endings.last()) {
            assert(endings.filter(counts) =~= kept.push(endings.last()));
            assert(kept.push(endings.last()).drop_last() =~= kept);
        }
    } else {
        assert(endings.filter(counts) =~= endings);
    }
}

/// A breaker reports that it opened exactly when it was not open and is now, and that it closed
/// exactly when it was half open and is closed now; it never reports both, and nothing else.
pub proof fn law_reports_are_the_transitions(breaker: CircuitView, ending: Ending, op: Seq<char>)
    ensures
        ({
            let next = breaker.called(ending);
            let reports = breaker.reports(next, op);
            &&& reports.len() <= 1
            &&& reports.contains(Event::CircuitOpen { op }) <==> breaker.state()
                != CircuitState::Open && next.state() == CircuitState::Open
            &&& reports.contains(Event::CircuitClose { op }) <==> breaker.state()
                == CircuitState::HalfOpen && next.state() == CircuitState::Closed
            &&& forall|i: int|
                0 <= i < reports.len() ==> #[trigger] reports[i] == (Event::CircuitOpen { op })
                    || reports[i] == (Event::CircuitClose { op })
        }),
{
    let next = breaker.called(ending);
    let reports = breaker.reports(next, op);
    if reports.len() > 0 {
        assert(reports.contains(reports[0]));
    }
}

/// What a call means to a breaker is decided by its result alone: a success is a success, of the
/// nine classes of errors only the transient one is a failure that counts, and all others are
/// alike.
pub proof fn law_only_transient_errors_count<R>(value: R, error: ResiliencxError)
    ensures
        Ending::of(Ok::<R, ResiliencxError>(value)) == Ending::Success,
        Ending::of(Err::<R, ResiliencxError>(error)) == Ending::Transient <==> error@.kind
            == ErrorKind::Transient,
        Ending::of(Err::<R, ResiliencxError>(error)) == Ending::Permanent <==> error@.kind
            != ErrorKind::Transient,
{
}

/// A configuration is accepted exactly if each of its thresholds is at least one, however large
/// they are, and a new breaker has just this configuration, is closed and has counted nothing.
pub proof fn law_new_breaker_keeps_its_thresholds(config: CircuitConfig)
    ensures
        config.wf() <==> config.failure_threshold >= 1 && config.success_threshold >= 1
            && config.open_to_half_open_after_rejects >= 1,
        CircuitView::initial(config).config == config,
        CircuitView::initial(config).phase == (Phase::Closed { failures: 0 }),
{
}

/// The state of a breaker is that of its phase.
pub proof fn law_state_is_that_of_the_phase(breaker: CircuitView)
    ensures
        breaker.state() == CircuitState::Closed <==> breaker.phase is Closed,
        breaker.state() == CircuitState::Open <==> breaker.phase is Open,
        breaker.state() == CircuitState::HalfOpen <==> breaker.phase is HalfOpen,
{
}

/// An open breaker counts one refusal, whatever the result, and is half open once there were as
/// many as configured. It keeps its thresholds and reports nothing.
pub proof fn law_refused_call<R>(
    breaker: CircuitView,
    rejects: nat,
    result: ResiliencxResult<R>,
    op: Seq<char>,
)
    requires
        breaker.phase == (Phase::Open { rejects }),
    ensures
        ({
            let next = breaker.called(Ending::of(result));
            &&& next.config == breaker.config
            &&& rejects + 1 < breaker.config.open_to_half_open_after_rejects ==> next.phase == (
            Phase::Open { rejects: rejects + 1 })
            &&& rejects + 1 >= breaker.config.open_to_half_open_after_rejects ==> next.phase == (
            Phase::HalfOpen { successes: 0 })
            &&& breaker.reports(next, op).len() == 0
        }),
{
}

/// A closed breaker forgets its failures at a success, counts a transient error and opens at the
/// one that reaches the threshold, and takes no notice of any other error. It keeps its thresholds
/// and reports that it opened, and nothing else.
pub proof fn law_call_of_a_closed_breaker<R>(
    breaker: CircuitView,
    failures: nat,
    result: ResiliencxResult<R>,
    op: Seq<char>,
)
    requires
        breaker.phase == (Phase::Closed { failures }),
    ensures
        ({
            let next = breaker.called(Ending::of(result));
            let reports = breaker.reports(next, op);
            let failed = result matches Err(error) && error@.kind == ErrorKind::Transient;
            &&& next.config == breaker.config
            &&& result is Ok ==> next.phase == (Phase::Closed { failures: 0 }) && reports.len() == 0
            &&& result is Err && !failed ==> next.phase == breaker.phase && reports.len() == 0
            &&& failed && failures + 1 < breaker.config.failure_threshold ==> next.phase == (
            Phase::Closed { failures: failures + 1 }) && reports.len() == 0
            &&& failed && failures + 1 >= breaker.config.failure_threshold ==> next.phase == (
            Phase::Open { rejects: 0 }) && reports == seq![Event::CircuitOpen { op }]
        }),
{
}

/// A half-open breaker counts a success and closes at the one that reaches the threshold, opens at
/// any transient error, and takes no notice of any other error. It keeps its thresholds and reports
/// that it closed or opened, and nothing else.
pub proof fn law_call_of_a_half_open_breaker<R>(
    breaker: CircuitView,
    successes: nat,
    result: ResiliencxResult<R>,
    op: Seq<char>,
)
    requires
        breaker.phase == (Phase::HalfOpen { successes }),
    ensures
        ({
            let next = breaker.called(Ending::of(result));
            let reports = breaker.reports(next, op);
            let failed = result matches Err(error) && error@.kind == ErrorKind::Transient;
            &&& next.config == breaker.config
            &&& result is Ok && successes + 1 < breaker.config.success_threshold ==> next.phase == (
            Phase::HalfOpen { successes: successes + 1 }) && reports.len() == 0
            &&& result is Ok && successes + 1 >= breaker.config.success_threshold ==> next.phase
                == (Phase::Closed { failures: 0 }) && reports == seq![Event::CircuitClose { op }]
            &&& failed ==> next.phase == (Phase::Open { rejects: 0 }) && reports
                == seq![Event::CircuitOpen { op }]
            &&& result is Err && !failed ==> next.phase == breaker.phase && reports.len() == 0
        }),
{
}

} // verus!
