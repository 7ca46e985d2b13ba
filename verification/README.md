# resiliencx

In-process resilience primitives, verified with Verus: safe retries, a retry budget, backoff with
jitter and a circuit breaker. Nothing in the library reads a clock, so that everything it does can
be told from what it was given.

## Layout

- `src/error.rs`: the error model. Only a transient error is worth a retry.
- `src/circuit.rs`: the circuit breaker, its model and its laws.
- `src/budget.rs`: the retry budget.
- `src/instrumentation.rs`: what is reported, and to whom.
- `src/retry.rs` and `src/retry/`: the retry functions (`retry.rs`), the model of a run and its
  laws (`run.rs`), runs that are driven from outside (`step.rs`), the delays (`jitter.rs`), the
  waits (`wait.rs`), what is retried and the account of its calls (`operation.rs`), boxed values
  (`value.rs`) and the debug form of a context (`form.rs`).
- `src/text.rs`: pieces of text. It holds two of the four assumptions of the library, on the debug
  formatting of `str` and `Duration`; the other two, on making a `String` from a `&str` and on
  converting a value into its own type, stand in `src/error.rs`.
- `app/`: threads that sleep, futures, shared budgets and the error traits of std.
- `tests/`: tests of the library.

## Reading the contracts

A retry takes an operation, an observer and a wait, each supplied by the caller. They say themselves
what calling, telling or asking does to them (`Callable::gives`, `Instrumentation::observes`,
`Wait::waits`), so that a contract can say how often each was done.

An `Operation` wraps what is called and keeps an account of the steps taken: calls, reports and
delays, in their order, each report and each delay with the observer or the wait as it was before
and as it was left. `RetryRun::performed` says what one run adds to the account: the outcomes of the
calls decide the run (`RetryRun::ends`) and its steps (`RetryRun::steps`), and the entries lead the
caller's own observer and wait from what they were to what they are (`Entry::lead`).

A run that must not block a thread is driven from outside: the types of `step.rs` take the outcome of
a call or the end of a delay and give out what comes next. Each keeps an account of what has
happened, and its place in the run is an invariant of the type.
