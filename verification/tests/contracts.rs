//! The behaviour of each entry point.

use resiliencx::{
    budget_exhausted_error, finish_by_deadline, retry_fn, retry_fn_safe, retry_fn_with_wait,
    retry_fn_with_wait_budget, retry_fn_with_wait_budget_inner, Attempt, AttemptEnd, Callable,
    CircuitBreaker, CircuitConfig, CircuitState, ErrorKind, Instrumentation, NoWait,
    NoopInstrumentation, Operation, RecordingWait, ResiliencxError, ResiliencxResult, RetryBudget,
    RetryConfig, RetryContext, RetrySafety, Wait,
};
use std::sync::Mutex;

#[derive(Debug, Default)]
struct AttemptLog {
    attempts: Vec<u32>,
    opens: Vec<String>,
    closes: Vec<String>,
}

impl Instrumentation for AttemptLog {
    fn record_retry(&mut self, _op: &str, attempt: u32) {
        self.attempts.push(attempt);
    }

    fn record_circuit_open(&mut self, op: &str) {
        self.opens.push(op.to_owned());
    }

    fn record_circuit_close(&mut self, op: &str) {
        self.closes.push(op.to_owned());
    }
}

#[test]
fn retry_fn_records_attempt_sequence() {
    let mut log = AttemptLog::default();
    let mut calls = 0u32;
    let mut operation = Operation::new(|| {
        calls += 1;
        Err::<(), _>(ResiliencxError::transient("暂时失败"))
    });
    let error = retry_fn::<NoWait, _, _, _>(
        &RetryConfig::fixed(3, 0),
        &mut log,
        "contract.retry_fn",
        &mut operation,
    )
    .expect_err("三次尝试全部失败应返回最后错误");
    assert_eq!(calls, 3, "尝试次数须等于 max_attempts");
    assert_eq!(error.kind(), ErrorKind::Transient);
    assert_eq!(log.attempts, vec![1, 2], "仅两次真正发起重试，序号从 1 起");
}

#[test]
fn retry_fn_safe_consumes_context_budget() {
    let mut budget = RetryBudget::new(1);
    let mut calls = 0u32;
    let mut operation = Operation::new(|| {
        calls += 1;
        Err::<(), _>(ResiliencxError::transient("暂时失败"))
    });
    let error = retry_fn_safe(
        RetryContext::new(
            &RetryConfig::fixed(5, 0),
            RetrySafety::ReadOnly,
            &mut NoopInstrumentation,
            "contract.safe",
        )
        .with_budget(&mut budget),
        &mut NoWait,
        &mut operation,
    )
    .expect_err("预算耗尽");
    assert_eq!(error.kind(), ErrorKind::Unavailable);
    assert_eq!(calls, 2, "只允许消费一次重试令牌");
    assert!(budget.is_exhausted());
}

#[test]
fn retry_context_new_wires_common_policy() {
    let mut budget = RetryBudget::new(2);
    let config = RetryConfig::fixed(2, 0);
    let mut instr = NoopInstrumentation;
    let context = RetryContext::new(
        &config,
        RetrySafety::ReadOnly,
        &mut instr,
        "contract.context",
    )
    .with_budget(&mut budget)
    .with_jitter_seed(11);
    let debug = context.debug_string();
    assert!(
        debug.contains("contract.context"),
        "op 应进入上下文: {debug}"
    );
    assert!(debug.contains("has_budget: true"), "预算应被接线: {debug}");
    assert!(debug.contains("jitter_seed: 11"), "seed 应被接线: {debug}");
}

#[test]
fn retry_budget_new_starts_full() {
    let budget = RetryBudget::new(3);
    assert_eq!(budget.capacity(), 3);
    assert_eq!(budget.remaining(), 3);
    assert!(!budget.is_exhausted());
}

#[test]
fn retry_budget_try_consume_decrements_and_fails_at_zero() {
    let mut budget = RetryBudget::new(2);
    assert!(budget.try_consume());
    assert!(budget.try_consume());
    assert!(!budget.try_consume(), "耗尽后必须拒绝");
    assert_eq!(budget.remaining(), 0);
    assert!(budget.is_exhausted());
}

#[test]
fn retry_budget_refund_never_exceeds_capacity() {
    let mut budget = RetryBudget::new(2);
    budget.refund();
    assert_eq!(budget.remaining(), 2, "满额时归还不超容");
    assert!(budget.try_consume());
    budget.refund();
    assert_eq!(budget.remaining(), 2);
}

#[test]
fn circuit_breaker_call_short_circuits_when_open() {
    let mut log = AttemptLog::default();
    let mut breaker = CircuitBreaker::new(CircuitConfig {
        failure_threshold: 1,
        success_threshold: 1,
        open_to_half_open_after_rejects: 5,
    })
    .ok()
    .expect("合法阈值");
    let _ = breaker.call(&mut log, "contract.circuit", || {
        Err::<(), _>(ResiliencxError::transient("trip"))
    });
    assert_eq!(breaker.state(), CircuitState::Open);

    let invoked = std::cell::Cell::new(false);
    let error = breaker
        .call(&mut log, "contract.circuit", || {
            invoked.set(true);
            Ok::<(), ResiliencxError>(())
        })
        .expect_err("打开状态应短路拒绝");
    assert_eq!(error.kind(), ErrorKind::Unavailable);
    assert!(!invoked.get(), "短路时业务闭包不得被调用");
    assert_eq!(log.opens.len(), 1);
}

#[test]
fn noop_instrumentation_is_a_valid_instrumentation() {
    let noop = &mut NoopInstrumentation;
    noop.record_retry("contract.noop", 1);
    noop.record_circuit_open("contract.noop");
    noop.record_circuit_close("contract.noop");

    let mut calls = 0u32;
    let mut operation = Operation::new(|| {
        calls += 1;
        Err::<(), _>(ResiliencxError::transient("暂时失败"))
    });
    let error = retry_fn::<NoWait, _, _, _>(
        &RetryConfig::fixed(2, 0),
        &mut NoopInstrumentation,
        "contract.noop",
        &mut operation,
    )
    .expect_err("空观测实现下仍应按配置重试一次");
    assert_eq!(calls, 2);
    assert_eq!(error.kind(), ErrorKind::Transient);
    assert!(format!("{NoopInstrumentation:?}").contains("NoopInstrumentation"));
}

#[test]
fn a_permanent_error_is_returned_at_once() {
    let mut log = AttemptLog::default();
    let mut wait = RecordingWait::new();
    let mut calls = 0u32;
    let error = retry_fn_with_wait(
        &RetryConfig::fixed(5, 10),
        &mut log,
        "contract.permanent",
        &mut wait,
        &mut Operation::new(|| {
            calls += 1;
            if calls == 1 {
                Err::<(), _>(ResiliencxError::transient("first"))
            } else {
                Err(ResiliencxError::conflict("second"))
            }
        }),
    )
    .expect_err("permanent");
    assert_eq!(error.to_string(), "Conflict: second");
    assert_eq!(calls, 2);
    assert_eq!(log.attempts, vec![1]);
    assert_eq!(wait.delays(), vec![10]);
}

#[test]
fn runs_share_one_budget() {
    let mut budget = RetryBudget::new(3);
    let mut calls = 0u32;
    for _ in 0..2 {
        let _ = retry_fn_with_wait_budget(
            &RetryConfig::fixed(3, 0),
            &mut NoopInstrumentation,
            "contract.shared",
            &mut NoWait,
            Some(&mut budget),
            &mut Operation::new(|| {
                calls += 1;
                Err::<(), _>(ResiliencxError::transient("t"))
            }),
        );
    }
    // Three attempts first; then one token is left, for two more.
    assert_eq!(calls, 5);
    assert!(budget.is_exhausted());
}

#[test]
fn the_inner_loop_takes_a_seed_and_keeps_account_of_the_calls() {
    let config = RetryConfig {
        jitter_bps: 5_000,
        ..RetryConfig::fixed(2, 1_000_000)
    };
    let mut wait = RecordingWait::default();
    let mut operation = Operation::new(|| Err::<u8, _>(ResiliencxError::transient("t")));
    let error = retry_fn_with_wait_budget_inner(
        &config,
        &mut NoopInstrumentation,
        "contract.inner",
        &mut wait,
        None,
        7,
        &mut operation,
    )
    .expect_err("transient");
    assert_eq!(error.kind(), ErrorKind::Transient);
    assert_eq!(wait.delays(), vec![912_600]);
    assert!(operation.invoke().is_err());
}

#[test]
fn a_driven_run_goes_step_by_step() {
    let config = RetryConfig::fixed(2, 30);
    let mut log = AttemptLog::default();
    let mut budget = RetryBudget::new(1);
    let attempt = Attempt::first(&config, 0).ok().expect("first");
    let retry = match attempt.finish(Err::<u8, _>(ResiliencxError::transient("t"))) {
        AttemptEnd::Retry(retry) => retry,
        AttemptEnd::Finished(_) => panic!("a transient failure is retried"),
    };
    let delay = retry.reserve(Some(&mut budget)).ok().expect("granted");
    assert!(budget.is_exhausted());
    assert_eq!(delay.delay_ms(), 30);
    let ready = delay.waited();
    assert!(log.attempts.is_empty());
    let last = ready.report(&mut log, "contract.driven");
    assert_eq!(log.attempts, vec![1]);
    match last.finish(Err(ResiliencxError::transient("last"))) {
        AttemptEnd::Finished(Err(error)) => assert_eq!(error.context(), "last"),
        _ => panic!("the attempts are used up"),
    }
    assert!(budget.is_exhausted());
}

#[test]
fn a_driven_retry_without_a_token_ends_in_the_budget_error() {
    let config = RetryConfig::fixed(2, 0);
    let mut budget = RetryBudget::new(0);
    let attempt = Attempt::first(&config, 0).ok().expect("first");
    let retry = match attempt.finish(Err::<u8, _>(ResiliencxError::transient("t"))) {
        AttemptEnd::Retry(retry) => retry,
        AttemptEnd::Finished(_) => panic!("a transient failure is retried"),
    };
    let error = retry.reserve(Some(&mut budget)).err().expect("no token");
    assert_eq!(error.to_string(), budget_exhausted_error().to_string());
    assert_eq!(error.to_string(), "Unavailable: 重试预算已耗尽");
}

#[test]
fn a_driven_retry_that_is_dropped_gives_its_token_back() {
    let config = RetryConfig::fixed(3, 10);
    let mut budget = RetryBudget::new(5);
    let mut attempt = Attempt::first(&config, 0).ok().expect("first");
    let mut log = AttemptLog::default();
    for dropped in [false, true] {
        let retry = match attempt.finish(Err::<u8, _>(ResiliencxError::transient("t"))) {
            AttemptEnd::Retry(retry) => retry,
            AttemptEnd::Finished(_) => panic!("a transient failure is retried"),
        };
        let delay = retry.reserve(Some(&mut budget)).ok().expect("granted");
        if dropped {
            assert_eq!(budget.remaining(), 3);
            delay.cancel(Some(&mut budget));
            break;
        }
        attempt = delay.waited().report(&mut log, "contract.dropped");
    }
    // One retry was made and reported; the pending one left nothing behind.
    assert_eq!(budget.remaining(), 4);
    assert_eq!(log.attempts, vec![1]);
}

#[test]
fn an_unsafe_driven_run_is_refused_before_its_first_attempt() {
    let twice = RetryConfig::fixed(2, 0);
    let error = Attempt::<u8>::first_safe(&twice, RetrySafety::UnsafeSideEffect, 0)
        .err()
        .expect("refused");
    assert_eq!(error.to_string(), "Invalid: 不安全副作用禁止配置多次尝试");
    let once = RetryConfig::fixed(1, 0);
    assert!(Attempt::<u8>::first_safe(&once, RetrySafety::UnsafeSideEffect, 0).is_ok());
    assert!(Attempt::<u8>::first_safe(&twice, RetrySafety::Idempotent, 0).is_ok());
    let none = RetryConfig::fixed(0, 0);
    let error = Attempt::<u8>::first_safe(&none, RetrySafety::UnsafeSideEffect, 0)
        .err()
        .expect("no attempt");
    assert_eq!(error.context(), "max_attempts 必须大于或等于 1");
}

#[test]
fn a_context_starts_a_driven_run() {
    let config = RetryConfig {
        jitter_bps: 5_000,
        ..RetryConfig::fixed(2, 1_000_000)
    };
    let mut log = AttemptLog::default();
    let context = RetryContext::new(&config, RetrySafety::ReadOnly, &mut log, "contract.context")
        .with_jitter_seed(7);
    let attempt = context.first_attempt::<u8>().ok().expect("first");
    let (observer, op) = context.into_observer();
    assert_eq!(op, "contract.context");
    let retry = match attempt.finish(Err(ResiliencxError::transient("t"))) {
        AttemptEnd::Retry(retry) => retry,
        AttemptEnd::Finished(_) => panic!("a transient failure is retried"),
    };
    let delay = retry.reserve(None).ok().expect("no budget to ask");
    assert_eq!(delay.delay_ms(), 912_600);
    let _ = delay.waited().report(observer, op);
    assert_eq!(log.attempts, vec![1]);

    let context = RetryContext::new(
        &config,
        RetrySafety::UnsafeSideEffect,
        &mut log,
        "contract.context",
    );
    assert_eq!(
        context
            .first_attempt::<u8>()
            .err()
            .expect("refused")
            .kind(),
        ErrorKind::Invalid
    );
}

#[test]
fn success_and_permanent_errors_finish_an_attempt() {
    let config = RetryConfig::fixed(3, 0);
    let first = Attempt::first(&config, 0).ok().expect("first");
    match first.finish(Ok::<u8, ResiliencxError>(5)) {
        AttemptEnd::Finished(result) => assert_eq!(result.ok(), Some(5)),
        AttemptEnd::Retry(_) => panic!("a success is final"),
    }
    let first = Attempt::first(&config, 0).ok().expect("first");
    match first.finish(Err::<u8, _>(ResiliencxError::cancelled("c"))) {
        AttemptEnd::Finished(Err(error)) => assert_eq!(error.kind(), ErrorKind::Cancelled),
        _ => panic!("a cancellation is final"),
    }
    assert_eq!(
        Attempt::<u8>::first(&RetryConfig::fixed(0, 0), 0)
            .err()
            .expect("no attempt")
            .kind(),
        ErrorKind::Invalid
    );
}

/// A call, a report or a delay, as one list shared by everyone that is told of them.
#[derive(Debug, Default)]
struct Diary {
    entries: Mutex<Vec<String>>,
}

impl Diary {
    fn note(&self, entry: String) {
        self.entries.lock().expect("diary").push(entry);
    }
}

impl Instrumentation for &Diary {
    fn record_retry(&mut self, op: &str, attempt: u32) {
        self.note(format!("report {op} {attempt}"));
    }

    fn record_circuit_open(&mut self, _op: &str) {}

    fn record_circuit_close(&mut self, _op: &str) {}
}

impl Wait for &Diary {
    fn wait_ms(&mut self, ms: u64) {
        self.note(format!("wait {ms}"));
    }
}

#[test]
fn each_retry_is_reported_and_waited_for_before_the_next_call() {
    let diary = Diary::default();
    let mut calls = 0u32;
    let mut operation = Operation::new(|| {
        calls += 1;
        diary.note(format!("call {calls}"));
        if calls < 3 {
            Err(ResiliencxError::transient("t"))
        } else {
            Ok(calls)
        }
    });
    let (mut observer, mut wait) = (&diary, &diary);
    let value = retry_fn_with_wait(
        &RetryConfig::fixed(4, 10),
        &mut observer,
        "x",
        &mut wait,
        &mut operation,
    );
    assert_eq!(value.ok(), Some(3));
    assert_eq!(
        *diary.entries.lock().expect("diary"),
        ["call 1", "report x 1", "wait 10", "call 2", "report x 2", "wait 10", "call 3"]
    );
}

#[test]
fn runs_may_share_one_observer() {
    let diary = Diary::default();
    for op in ["a", "b"] {
        let mut observer = &diary;
        let _ = retry_fn::<NoWait, _, _, _>(
            &RetryConfig::fixed(2, 0),
            &mut observer,
            op,
            &mut Operation::new(|| Err::<(), _>(ResiliencxError::transient("t"))),
        );
    }
    assert_eq!(
        *diary.entries.lock().expect("diary"),
        ["report a 1", "report b 1"]
    );
}

/// Fails a number of times and succeeds from then on.
struct Recovering {
    failures: u32,
}

impl Callable<&'static str> for Recovering {
    fn invoke(&mut self) -> ResiliencxResult<&'static str> {
        if self.failures == 0 {
            return Ok("up");
        }
        self.failures -= 1;
        Err(ResiliencxError::transient("down"))
    }
}

#[test]
fn a_callable_with_a_state_of_its_own_is_retried() {
    let mut operation = Operation::of(Recovering { failures: 2 });
    let config = RetryConfig::fixed(2, 0);
    let first = retry_fn::<NoWait, _, _, _>(
        &config,
        &mut NoopInstrumentation,
        "contract.recovering",
        &mut operation,
    );
    assert_eq!(first.expect_err("down").context(), "down");
    let second = retry_fn::<NoWait, _, _, _>(
        &config,
        &mut NoopInstrumentation,
        "contract.recovering",
        &mut operation,
    );
    assert_eq!(second.ok(), Some("up"));
}

#[test]
fn a_fresh_context_retries_like_a_plain_retry() {
    let config = RetryConfig {
        jitter_bps: 2_500,
        ..RetryConfig::fixed(3, 1_000)
    };
    let mut plain = RecordingWait::new();
    let mut safe = RecordingWait::new();
    let plain_error = retry_fn_with_wait(
        &config,
        &mut NoopInstrumentation,
        "contract.fresh",
        &mut plain,
        &mut Operation::new(|| Err::<(), _>(ResiliencxError::transient("t"))),
    )
    .expect_err("transient");
    let safe_error = retry_fn_safe(
        RetryContext::new(
            &config,
            RetrySafety::ReadOnly,
            &mut NoopInstrumentation,
            "contract.fresh",
        ),
        &mut safe,
        &mut Operation::new(|| Err::<(), _>(ResiliencxError::transient("t"))),
    )
    .expect_err("transient");
    assert_eq!(plain_error.to_string(), safe_error.to_string());
    assert_eq!(plain.delays(), safe.delays());
    assert_eq!(plain.delays().len(), 2);
}

#[test]
fn a_passed_deadline_is_an_error_of_its_own() {
    assert_eq!(finish_by_deadline(Some(Ok(3u8))).ok(), Some(3));
    let error = finish_by_deadline::<u8>(None).expect_err("deadline");
    assert_eq!(
        error.to_string(),
        "DeadlineExceeded: resiliencx 整次重试已超过截止时间"
    );
}

#[test]
fn a_cancelled_retry_gives_its_token_back() {
    let mut budget = RetryBudget::new(2);
    assert!(budget.try_consume());
    let before = budget.remaining();
    assert!(budget.try_consume());
    budget.refund();
    assert_eq!(budget.remaining(), before);
}

#[test]
fn a_full_run_of_tokens_adds_up() {
    let mut budget = RetryBudget::new(4);
    assert!(budget.try_consume());
    assert!(budget.try_consume());
    assert_eq!(budget.remaining(), 2);
    assert_eq!(budget.capacity(), 4);
    budget.reset();
    assert_eq!(budget.remaining(), 4);
}

#[test]
fn transitions_are_reported_once_each() {
    let mut log = AttemptLog::default();
    let mut breaker = CircuitBreaker::new(CircuitConfig {
        failure_threshold: 1,
        success_threshold: 1,
        open_to_half_open_after_rejects: 1,
    })
    .ok()
    .expect("breaker");
    let _ = breaker.call(&mut log, "down", || {
        Err::<(), _>(ResiliencxError::transient("t"))
    });
    let _ = breaker.call(&mut log, "refused", || Ok(()));
    let _ = breaker.call(&mut log, "up", || Ok(()));
    let _ = breaker.call(&mut log, "steady", || Ok(()));
    assert_eq!(log.opens, vec!["down".to_string()]);
    assert_eq!(log.closes, vec!["up".to_string()]);
}

#[test]
fn an_unsafe_operation_may_run_once() {
    let mut calls = 0u32;
    let value = retry_fn_safe(
        RetryContext::new(
            &RetryConfig::fixed(1, 0),
            RetrySafety::UnsafeSideEffect,
            &mut NoopInstrumentation,
            "contract.once",
        ),
        &mut NoWait,
        &mut Operation::new(|| {
            calls += 1;
            Ok(42u8)
        }),
    );
    assert_eq!(value.ok(), Some(42));
    assert_eq!(calls, 1);
}
