//! Delays, waits, budgets and the retry functions.

use resiliencx::{
    apply_deterministic_jitter, apply_seeded_jitter, retry_delay_ms, retry_delay_ms_with_seed,
    retry_downcast, retry_fn_safe, retry_fn_with_budget, retry_fn_with_wait,
    retry_fn_with_wait_budget, retry_ok, Backoff, ErrorKind, NoWait, NoopInstrumentation,
    Operation, RecordingWait, ResiliencxError, RetryBudget, RetryConfig, RetryContext, RetrySafety, Wait,
};
use std::any::Any;

type RetryValue = Box<dyn Any + Send>;

#[test]
fn delay_zero_base_or_attempt() {
    let cfg = RetryConfig::fixed(3, 0);
    assert_eq!(retry_delay_ms(&cfg, 1), 0);
    let cfg = RetryConfig::fixed(3, 10);
    assert_eq!(retry_delay_ms(&cfg, 0), 0);
}

#[test]
fn constant_backoff() {
    let cfg = RetryConfig {
        max_attempts: 5,
        base_delay_ms: 10,
        backoff: Backoff::Constant,
        jitter_bps: 0,
    };
    assert_eq!(retry_delay_ms(&cfg, 1), 10);
    assert_eq!(retry_delay_ms(&cfg, 3), 10);
}

#[test]
fn exponential_backoff_caps() {
    let cfg = RetryConfig {
        max_attempts: 10,
        base_delay_ms: 10,
        backoff: Backoff::Exponential {
            factor: 2,
            max_delay_ms: 40,
        },
        jitter_bps: 0,
    };
    assert_eq!(retry_delay_ms(&cfg, 1), 10);
    assert_eq!(retry_delay_ms(&cfg, 2), 20);
    assert_eq!(retry_delay_ms(&cfg, 3), 40);
    assert_eq!(retry_delay_ms(&cfg, 4), 40);
}

#[test]
fn exponential_factor_one_equals_constant_until_cap() {
    let cfg = RetryConfig {
        max_attempts: 5,
        base_delay_ms: 7,
        backoff: Backoff::Exponential {
            factor: 0,
            max_delay_ms: 100,
        },
        jitter_bps: 0,
    };
    assert_eq!(retry_delay_ms(&cfg, 1), 7);
    assert_eq!(retry_delay_ms(&cfg, 3), 7);
}

#[test]
fn jitter_zero_unchanged() {
    assert_eq!(apply_deterministic_jitter(100, 0, 1), 100);
    assert_eq!(apply_deterministic_jitter(0, 5000, 1), 0);
}

#[test]
fn jitter_reduces_or_keeps() {
    let j = apply_deterministic_jitter(1000, 5000, 1);
    assert!(j <= 1000);
    assert_eq!(j, apply_deterministic_jitter(1000, 5000, 1));
    assert_ne!(j, apply_deterministic_jitter(1000, 5000, 2));
}

#[test]
fn recording_wait_captures_exponential_delays() {
    let cfg = RetryConfig {
        max_attempts: 4,
        base_delay_ms: 5,
        backoff: Backoff::Exponential {
            factor: 2,
            max_delay_ms: 100,
        },
        jitter_bps: 0,
    };
    let mut wait = RecordingWait::new();
    let mut hits = 0u32;
    let mut op = Operation::new(|| {
        hits += 1;
        if hits < 4 {
            Err(ResiliencxError::transient("t"))
        } else {
            Ok(retry_ok(()))
        }
    });
    let mut instr = NoopInstrumentation;
    retry_fn_with_wait(&cfg, &mut instr, "op", &mut wait, &mut op)
        .ok()
        .expect("ok");
    assert_eq!(wait.delays(), vec![5, 10, 20]);
}

#[test]
fn no_wait_and_thread_sleep_zero() {
    Wait::wait_ms(&mut NoWait, 0);
    Wait::wait_ms(&mut NoWait, 1);
    let _ = format!("{NoWait:?}");
    let _ = format!("{:?}", Backoff::default());
    let _ = RetryConfig::fixed(2, 0);
}

#[test]
fn config_default_has_constant_backoff() {
    let d = RetryConfig::default();
    assert_eq!(d.backoff, Backoff::Constant);
    assert_eq!(d.jitter_bps, 0);
}

#[test]
fn budget_stops_further_retries() {
    let cfg = RetryConfig::fixed(10, 0);
    let mut budget = RetryBudget::new(1);
    let mut hits = 0u32;
    let mut op = Operation::new(|| {
        hits += 1;
        Err::<(), _>(ResiliencxError::transient("t"))
    });
    let mut instr = NoopInstrumentation;
    let err = retry_fn_with_wait_budget(
        &cfg,
        &mut instr,
        "op",
        &mut NoWait,
        Some(&mut budget),
        &mut op,
    )
    .unwrap_err();
    assert_eq!(err.kind(), ErrorKind::Unavailable);
    assert_eq!(hits, 2);
    assert!(budget.is_exhausted());
    budget.reset();
    assert_eq!(budget.remaining(), 1);
}

#[test]
fn retry_fn_with_budget_wrapper() {
    let cfg = RetryConfig::fixed(3, 0);
    let mut budget = RetryBudget::new(5);
    let mut hits = 0u32;
    let mut op = Operation::new(|| {
        hits += 1;
        if hits < 2 {
            Err(ResiliencxError::transient("t"))
        } else {
            let value: RetryValue = retry_ok(7);
            Ok(value)
        }
    });
    let v = retry_fn_with_budget::<NoWait, _, _, _>(
        &cfg,
        &mut NoopInstrumentation,
        "wrap",
        &mut budget,
        &mut op,
    )
    .ok()
    .expect("ok");
    let v = retry_downcast::<i32>(v.downcast::<i32>().ok().map(|boxed| *boxed));
    assert_eq!(v.ok().unwrap(), 7);
    assert_eq!(hits, 2);
    assert_eq!(budget.remaining(), 4);
}

#[test]
fn retry_safety_validate_contract() {
    assert!(RetrySafety::ReadOnly
        .validate(&RetryConfig::fixed(2, 0))
        .is_ok());
    assert!(RetrySafety::Idempotent
        .validate(&RetryConfig::fixed(2, 0))
        .is_ok());
    let err = RetrySafety::UnsafeSideEffect
        .validate(&RetryConfig::fixed(2, 0))
        .expect_err("多次不安全副作用应拒绝");
    assert_eq!(err.kind(), ErrorKind::Invalid);
}

#[test]
fn seeded_jitter_public_helpers_are_deterministic_and_decorrelated() {
    let config = RetryConfig {
        max_attempts: 2,
        base_delay_ms: 1_000,
        backoff: Backoff::Constant,
        jitter_bps: 5_000,
    };
    assert_eq!(
        retry_delay_ms_with_seed(&config, 1, 7),
        apply_seeded_jitter(1_000, 5_000, 1, 7)
    );
    assert_ne!(
        retry_delay_ms_with_seed(&config, 1, 7),
        retry_delay_ms_with_seed(&config, 1, 8)
    );
}

#[test]
fn retry_fn_safe_uses_caller_jitter_seed() {
    let config = RetryConfig {
        max_attempts: 2,
        base_delay_ms: 1_000,
        backoff: Backoff::Constant,
        jitter_bps: 5_000,
    };
    let mut wait = RecordingWait::new();
    let mut calls = 0u32;
    let mut operation = Operation::new(|| {
        calls += 1;
        if calls == 1 {
            Err(ResiliencxError::transient("重试"))
        } else {
            Ok(retry_ok(()))
        }
    });
    retry_fn_safe(
        RetryContext::new(
            &config,
            RetrySafety::ReadOnly,
            &mut NoopInstrumentation,
            "seeded",
        )
        .with_jitter_seed(7),
        &mut wait,
        &mut operation,
    )
    .ok()
    .expect("安全重试");
    assert_eq!(wait.delays(), vec![retry_delay_ms_with_seed(&config, 1, 7)]);
}

#[test]
fn retry_context_builders_preserve_common_policy() {
    let config = RetryConfig::fixed(2, 0);
    let mut budget = RetryBudget::new(1);
    let mut instr = NoopInstrumentation;
    let context = RetryContext::new(&config, RetrySafety::ReadOnly, &mut instr, "context")
        .with_budget(&mut budget)
        .with_jitter_seed(9);

    let debug = context.debug_string();
    assert!(debug.contains("context"));
    assert!(debug.contains("has_budget: true"));
    assert!(debug.contains("jitter_seed: 9"));
}

#[test]
fn the_debug_form_of_a_context_is_complete() {
    let config = RetryConfig {
        max_attempts: 120,
        base_delay_ms: 5,
        backoff: Backoff::Exponential {
            factor: 2,
            max_delay_ms: 18_446_744_073_709_551_615,
        },
        jitter_bps: 10,
    };
    let mut instr = NoopInstrumentation;
    let context = RetryContext::new(&config, RetrySafety::Idempotent, &mut instr, "a\tb");
    assert_eq!(
        context.debug_string(),
        "RetryContext { config: RetryConfig { max_attempts: 120, base_delay_ms: 5, backoff: Exponential { factor: 2, max_delay_ms: 18446744073709551615 }, jitter_bps: 10 }, safety: Idempotent, op: \"a\\tb\", has_budget: false, jitter_seed: 0, .. }"
    );
    assert_eq!(
        format!("{config:?}"),
        "RetryConfig { max_attempts: 120, base_delay_ms: 5, backoff: Exponential { factor: 2, max_delay_ms: 18446744073709551615 }, jitter_bps: 10 }"
    );
}

#[test]
fn a_failed_downcast_is_invalid_input() {
    let value: RetryValue = retry_ok("v");
    let error = retry_downcast::<u8>(value.downcast::<u8>().ok().map(|boxed| *boxed))
        .expect_err("wrong type");
    assert_eq!(error.to_string(), "Invalid: 重试返回值类型不匹配");
    assert_eq!(*retry_ok("v"), "v");
}

#[test]
fn the_debug_form_of_a_recorder_shows_its_delays() {
    let mut wait = RecordingWait::new();
    assert_eq!(
        wait.debug_string(),
        "RecordingWait { delays: Mutex { data: [], poisoned: false, .. } }"
    );
    wait.wait_ms(5);
    assert_eq!(
        wait.debug_string(),
        "RecordingWait { delays: Mutex { data: [5], poisoned: false, .. } }"
    );
    wait.wait_ms(120);
    wait.wait_ms(u64::MAX);
    let shared = std::sync::Mutex::new(vec![5, 120, u64::MAX]);
    assert_eq!(
        wait.debug_string(),
        format!("RecordingWait {{ delays: {shared:?} }}")
    );
}
