//! What the primitives promise together.

use resiliencx::{
    apply_deterministic_jitter, apply_seeded_jitter, retry_delay_ms, retry_delay_ms_with_seed,
    retry_fn, retry_fn_safe, retry_ok, Backoff, CircuitBreaker, CircuitConfig, CircuitState,
    ErrorKind, Instrumentation, NoWait, NoopInstrumentation, Operation, RecordingWait,
    ResiliencxError, RetryBudget, RetryConfig, RetryContext, RetrySafety,
};

#[derive(Debug, Default)]
struct AttemptLog {
    attempts: Vec<u32>,
}

impl Instrumentation for AttemptLog {
    fn record_retry(&mut self, _op: &str, attempt: u32) {
        self.attempts.push(attempt);
    }

    fn record_circuit_open(&mut self, _op: &str) {}

    fn record_circuit_close(&mut self, _op: &str) {}
}

#[test]
fn assert_capability_standard() {
    let mut log = AttemptLog::default();
    let mut calls = 0u32;
    let mut operation = Operation::new(|| {
        calls += 1;
        Err::<(), _>(ResiliencxError::transient("暂时失败"))
    });
    let _ = retry_fn::<NoWait, _, _, _>(
        &RetryConfig::fixed(3, 0),
        &mut log,
        "cap.retry",
        &mut operation,
    );
    assert_eq!(calls, 3, "重试次数须有限且等于 max_attempts");
    assert_eq!(log.attempts, vec![1, 2], "仅可重试错误触发退避");

    let exponential = RetryConfig {
        max_attempts: 3,
        base_delay_ms: 5,
        backoff: Backoff::Exponential {
            factor: 2,
            max_delay_ms: 100,
        },
        jitter_bps: 0,
    };
    assert_eq!(
        retry_delay_ms(&exponential, 2),
        10,
        "指数退避按 factor 放大"
    );

    let mut budget = RetryBudget::new(1);
    assert!(budget.try_consume());
    assert!(budget.is_exhausted());

    let mut breaker = CircuitBreaker::new(CircuitConfig {
        failure_threshold: 1,
        success_threshold: 1,
        open_to_half_open_after_rejects: 1,
    })
    .ok()
    .expect("合法阈值");
    let _ = breaker.call(&mut NoopInstrumentation, "cap.cb", || {
        Err::<(), _>(ResiliencxError::transient("trip"))
    });
    assert_eq!(breaker.state(), CircuitState::Open);
    let _ = breaker.call(&mut NoopInstrumentation, "cap.cb", || Ok(()));
    assert_eq!(
        breaker.state(),
        CircuitState::HalfOpen,
        "按拒绝次数推进 HalfOpen"
    );
    breaker
        .call(&mut NoopInstrumentation, "cap.cb", || Ok(()))
        .ok()
        .expect("闭合");
    assert_eq!(breaker.state(), CircuitState::Closed);
}

#[test]
fn assert_safety_and_cancellation_standard() {
    assert!(RetrySafety::ReadOnly
        .validate(&RetryConfig::fixed(3, 0))
        .is_ok());
    assert!(RetrySafety::Idempotent
        .validate(&RetryConfig::fixed(3, 0))
        .is_ok());
    assert!(RetrySafety::UnsafeSideEffect
        .validate(&RetryConfig::fixed(1, 0))
        .is_ok());
    assert!(RetrySafety::UnsafeSideEffect
        .validate(&RetryConfig::fixed(2, 0))
        .is_err());

    let mut calls = 0u32;
    let mut operation = Operation::new(|| {
        calls += 1;
        Ok::<_, ResiliencxError>(retry_ok(()))
    });
    let error = retry_fn_safe(
        RetryContext::new(
            &RetryConfig::fixed(2, 0),
            RetrySafety::UnsafeSideEffect,
            &mut NoopInstrumentation,
            "safety.unsafe",
        ),
        &mut NoWait,
        &mut operation,
    )
    .expect_err("多次不安全副作用应拒绝");
    assert_eq!(error.kind(), ErrorKind::Invalid);
    assert_eq!(error.context(), "不安全副作用禁止配置多次尝试");
    assert_eq!(calls, 0, "策略校验须在首次闭包执行前完成");
}

#[test]
fn assert_observation_standard() {
    let mut log = AttemptLog::default();
    let mut calls = 0u32;
    let mut operation = Operation::new(|| {
        calls += 1;
        Err::<(), _>(ResiliencxError::transient("暂时失败"))
    });
    let _ = retry_fn::<NoWait, _, _, _>(
        &RetryConfig::fixed(4, 0),
        &mut log,
        "obs.retry",
        &mut operation,
    );
    assert_eq!(calls, 4);
    assert_eq!(
        log.attempts,
        vec![1, 2, 3],
        "attempt 从 1 起，且只在确实准备发起下一次尝试时记录"
    );

    let mut log2 = AttemptLog::default();
    let mut budget = RetryBudget::new(0);
    let mut calls2 = 0u32;
    let mut operation2 = Operation::new(|| {
        calls2 += 1;
        Err::<(), _>(ResiliencxError::transient("暂时失败"))
    });
    let error = retry_fn_safe(
        RetryContext::new(
            &RetryConfig::fixed(5, 0),
            RetrySafety::ReadOnly,
            &mut log2,
            "obs.budget",
        )
        .with_budget(&mut budget),
        &mut NoWait,
        &mut operation2,
    )
    .expect_err("预算耗尽");
    assert_eq!(error.kind(), ErrorKind::Unavailable);
    assert_eq!(calls2, 1);
    assert!(log2.attempts.is_empty());
}

#[test]
fn assert_jitter_standard() {
    assert_eq!(retry_delay_ms(&RetryConfig::fixed(2, 10), 1), 10);
    let seeded = RetryConfig {
        max_attempts: 3,
        base_delay_ms: 1_000,
        backoff: Backoff::Constant,
        jitter_bps: 5_000,
    };
    assert_eq!(
        retry_delay_ms(&seeded, 1),
        apply_deterministic_jitter(1_000, 5_000, 1)
    );
    assert_eq!(
        apply_deterministic_jitter(1_000, 5_000, 1),
        apply_deterministic_jitter(1_000, 5_000, 1),
        "同 attempt 同结果"
    );
    assert_ne!(
        apply_seeded_jitter(1_000, 5_000, 1, 1),
        apply_seeded_jitter(1_000, 5_000, 1, 2)
    );

    let mut wait = RecordingWait::new();
    let mut calls = 0u32;
    let mut operation = Operation::new(|| {
        calls += 1;
        if calls == 1 {
            Err(ResiliencxError::transient("暂时失败"))
        } else {
            Ok(retry_ok(()))
        }
    });
    retry_fn_safe(
        RetryContext::new(
            &seeded,
            RetrySafety::ReadOnly,
            &mut NoopInstrumentation,
            "jitter.seed",
        )
        .with_jitter_seed(9),
        &mut wait,
        &mut operation,
    )
    .ok()
    .expect("安全重试");
    assert_eq!(wait.delays(), vec![retry_delay_ms_with_seed(&seeded, 1, 9)]);
}

#[test]
fn assert_local_fail_fast_boundary() {
    let mut breaker = CircuitBreaker::new(CircuitConfig {
        failure_threshold: 1,
        success_threshold: 1,
        open_to_half_open_after_rejects: 10,
    })
    .ok()
    .expect("合法阈值");
    let _ = breaker.call(&mut NoopInstrumentation, "s5.cb", || {
        Err::<(), _>(ResiliencxError::transient("trip"))
    });
    assert_eq!(breaker.state(), CircuitState::Open);
    assert_eq!(
        breaker
            .call(&mut NoopInstrumentation, "s5.cb", || {
                Ok::<(), ResiliencxError>(())
            })
            .expect_err("立即拒绝")
            .kind(),
        ErrorKind::Unavailable
    );
}

#[test]
fn assert_dependency_and_runtime() {
    let instrumentation = &mut NoopInstrumentation;
    instrumentation.record_retry("dep.observe", 1);
    instrumentation.record_circuit_open("dep.observe");
    instrumentation.record_circuit_close("dep.observe");

    assert!(ResiliencxError::transient("下游暂时不可用").is_retryable());
    assert!(!ResiliencxError::invalid("输入非法").is_retryable());
    assert!(ResiliencxError::broken_invariant("不变量被破坏").is_bug());
}
