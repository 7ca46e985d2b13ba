//! In-process resilience primitives: safe retries, a retry budget, backoff with jitter and a
//! circuit breaker.
//!
//! Nothing here reads a clock: a breaker moves on by counting, and every delay is handed to the
//! caller's [`Wait`]. The contracts are stated over plain models of each type and are proved by
//! Verus.

pub mod budget;
pub mod circuit;
pub mod error;
pub mod instrumentation;
pub mod retry;
pub mod text;

pub use budget::{budget_exhausted_error, BudgetView, RetryBudget};
pub use circuit::{CircuitBreaker, CircuitConfig, CircuitState, CircuitView, Ending, Phase};
pub use error::{ErrorKind, ErrorView, ResiliencxError, ResiliencxResult};
pub use instrumentation::{Event, Instrumentation, NoopInstrumentation};
pub use retry::{
    apply_deterministic_jitter, apply_seeded_jitter, finish_by_deadline, retry_delay_ms,
    retry_delay_ms_with_seed, retry_downcast, retry_fn, retry_fn_safe, retry_fn_with_budget,
    retry_fn_with_wait, retry_fn_with_wait_budget, retry_fn_with_wait_budget_inner, retry_ok,
    Attempt, AttemptEnd, Backoff, Callable, DrivenStep, DrivenView, Entry, NoWait, Operation,
    PendingRetry, ReadyRetry, RecordingWait, RetryConfig, RetryContext, RetryDelay, RetryRun,
    RetrySafety, Step, Wait,
};
