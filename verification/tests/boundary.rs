//! Boundary values.

use resiliencx::{
    apply_seeded_jitter, retry_delay_ms, retry_fn, retry_ok, Backoff, CircuitBreaker,
    CircuitConfig, ErrorKind, Instrumentation, NoWait, NoopInstrumentation, Operation,
    ResiliencxError, RetryBudget, RetryConfig,
};

#[derive(Debug, Default)]
struct CountingSink {
    retries: Vec<(String, u32)>,
}

impl Instrumentation for CountingSink {
    fn record_retry(&mut self, op: &str, attempt: u32) {
        self.retries.push((op.to_owned(), attempt));
    }

    fn record_circuit_open(&mut self, _op: &str) {}

    fn record_circuit_close(&mut self, _op: &str) {}
}

#[test]
fn zero_max_attempts_fails_closed() {
    let mut calls = 0u32;
    let mut operation = Operation::new(|| {
        calls += 1;
        Ok::<_, ResiliencxError>(retry_ok(()))
    });
    let error = retry_fn::<NoWait, _, _, _>(
        &RetryConfig::fixed(0, 0),
        &mut NoopInstrumentation,
        "aidd.zero",
        &mut operation,
    )
    .expect_err("零次尝试必须拒绝");
    assert_eq!(error.kind(), ErrorKind::Invalid);
    assert_eq!(error.context(), "max_attempts 必须大于或等于 1");
    assert_eq!(calls, 0);
}

#[test]
fn jitter_at_upper_bound_only_reduces() {
    let full = apply_seeded_jitter(1_000, 10_000, 3, 42);
    assert!(full <= 1_000, "抖动不得放大延迟");
    assert_eq!(full, apply_seeded_jitter(1_000, 10_000, 3, 42));
    let clamped = apply_seeded_jitter(1_000, u32::MAX, 3, 42);
    assert!(clamped <= 1_000);
}

#[test]
fn zero_capacity_budget_stays_exhausted() {
    let mut budget = RetryBudget::new(0);
    assert!(budget.is_exhausted());
    assert!(!budget.try_consume());
    budget.refund();
    assert_eq!(budget.remaining(), 0, "容量 0 时归还是空操作");
}

#[test]
fn zero_circuit_threshold_is_rejected() {
    for config in [
        CircuitConfig {
            failure_threshold: 0,
            success_threshold: 1,
            open_to_half_open_after_rejects: 1,
        },
        CircuitConfig {
            failure_threshold: 1,
            success_threshold: 0,
            open_to_half_open_after_rejects: 1,
        },
        CircuitConfig {
            failure_threshold: 1,
            success_threshold: 1,
            open_to_half_open_after_rejects: 0,
        },
    ] {
        let error = CircuitBreaker::new(config).expect_err("阈值 0 必须拒绝");
        assert_eq!(error.kind(), ErrorKind::Invalid);
    }
}

#[test]
fn exponential_backoff_saturates_at_extreme_attempt() {
    let config = RetryConfig {
        max_attempts: 5,
        base_delay_ms: 10,
        backoff: Backoff::Exponential {
            factor: 2,
            max_delay_ms: 40,
        },
        jitter_bps: 0,
    };
    assert_eq!(
        retry_delay_ms(&config, u32::MAX),
        40,
        "须封顶于 max_delay_ms"
    );
}

#[test]
fn non_ascii_and_huge_op_survive_observation() {
    let mut sink = CountingSink::default();
    let unicode = "数据库．查询\u{0301}🦀";
    let long = "x".repeat(100_000);
    sink.record_retry(unicode, 1);
    sink.record_retry(&long, u32::MAX);
    let recorded = &sink.retries;
    assert_eq!(recorded.len(), 2);
    assert_eq!(recorded[0].0, unicode);
    assert_eq!(recorded[1].0.len(), 100_000);
}

#[test]
fn the_largest_delays_do_not_overflow() {
    let config = RetryConfig {
        max_attempts: 2,
        base_delay_ms: u64::MAX,
        backoff: Backoff::Exponential {
            factor: u32::MAX,
            max_delay_ms: u64::MAX,
        },
        jitter_bps: 0,
    };
    assert_eq!(retry_delay_ms(&config, 2), u64::MAX);
    // The offsets are 7919 and 15838 modulo 2: one basis point, and none.
    assert_eq!(
        apply_seeded_jitter(u64::MAX, 1, 1, 0),
        18_444_899_399_302_180_659
    );
    assert_eq!(apply_seeded_jitter(u64::MAX, 1, 2, 0), u64::MAX);
    assert_eq!(apply_seeded_jitter(1_000, 10_000, 1, u64::MAX), 30);
}

#[test]
fn jitter_follows_its_formula() {
    // 1 * 7919 + 7 * 104729 = 741022, and 741022 modulo 5001 is 874.
    assert_eq!(apply_seeded_jitter(1_000_000, 5_000, 1, 7), 912_600);
    // 7919 modulo 5001 is 2918.
    assert_eq!(apply_seeded_jitter(1_000, 5_000, 1, 0), 708);
    // Ten percent at most: the result stays within 900 and 1000.
    let jittered = apply_seeded_jitter(1_000, 1_000, 1, 0);
    assert!((900..=1_000).contains(&jittered));
    // Any width beyond the whole counts as the whole.
    assert_eq!(
        apply_seeded_jitter(1_000, u32::MAX, 3, 42),
        apply_seeded_jitter(1_000, 10_000, 3, 42)
    );
}

#[test]
fn nearby_seeds_give_different_delays() {
    for distance in 1..=50u64 {
        assert_ne!(
            apply_seeded_jitter(10_000, 50, 1, 3),
            apply_seeded_jitter(10_000, 50, 1, 3 + distance)
        );
    }
}
