//! The circuit breaker, state by state.

use resiliencx::{
    CircuitBreaker, CircuitConfig, CircuitState, ErrorKind, Instrumentation, NoopInstrumentation,
    ResiliencxError,
};

struct CountingInstr {
    open: u32,
    close: u32,
}

impl Instrumentation for CountingInstr {
    fn record_retry(&mut self, _op: &str, _attempt: u32) {}

    fn record_circuit_open(&mut self, _op: &str) {
        self.open += 1;
    }

    fn record_circuit_close(&mut self, _op: &str) {
        self.close += 1;
    }
}

fn counting() -> CountingInstr {
    CountingInstr { open: 0, close: 0 }
}

fn cfg() -> CircuitConfig {
    CircuitConfig {
        failure_threshold: 2,
        success_threshold: 2,
        open_to_half_open_after_rejects: 2,
    }
}

fn breaker() -> CircuitBreaker {
    CircuitBreaker::new(cfg()).ok().expect("cb")
}

#[test]
fn rejects_zero_thresholds() {
    for c in [
        CircuitConfig {
            failure_threshold: 0,
            success_threshold: 1,
            open_to_half_open_after_rejects: 1,
        },
        CircuitConfig {
            failure_threshold: 1,
            success_threshold: 0,
            open_to_half_open_after_rejects: 1,
        },
        CircuitConfig {
            failure_threshold: 1,
            success_threshold: 1,
            open_to_half_open_after_rejects: 0,
        },
    ] {
        assert!(CircuitBreaker::new(c).is_err());
    }
}

#[test]
fn closed_success_resets_and_stays_closed() {
    let mut cb = breaker();
    let mut instr = NoopInstrumentation;
    assert_eq!(cb.state(), CircuitState::Closed);
    assert_eq!(cb.config().failure_threshold, 2);
    let v = cb
        .call(&mut instr, "op", || Ok::<_, ResiliencxError>(7))
        .ok()
        .expect("ok");
    assert_eq!(v, 7);
    assert_eq!(cb.state(), CircuitState::Closed);
}

#[test]
fn trips_open_after_failure_threshold() {
    let mut cb = breaker();
    let mut instr = counting();
    let _ = cb.call(&mut instr, "x", || {
        Err::<(), _>(ResiliencxError::transient("1"))
    });
    assert_eq!(cb.state(), CircuitState::Closed);
    let _ = cb.call(&mut instr, "x", || {
        Err::<(), _>(ResiliencxError::transient("2"))
    });
    assert_eq!(cb.state(), CircuitState::Open);
    assert_eq!(instr.open, 1);
}

#[test]
fn open_rejects_then_half_open_then_close() {
    let mut cb = breaker();
    let mut instr = counting();
    let _ = cb.call(&mut instr, "x", || {
        Err::<(), _>(ResiliencxError::transient("a"))
    });
    let _ = cb.call(&mut instr, "x", || {
        Err::<(), _>(ResiliencxError::transient("b"))
    });
    assert_eq!(cb.state(), CircuitState::Open);

    let e1 = cb.call(&mut instr, "x", || Ok(())).expect_err("reject1");
    assert_eq!(e1.kind(), ErrorKind::Unavailable);
    assert_eq!(e1.context(), "熔断器已打开");
    assert_eq!(cb.state(), CircuitState::Open);
    let _ = cb.call(&mut instr, "x", || Ok(())).expect_err("reject2");
    assert_eq!(cb.state(), CircuitState::HalfOpen);

    cb.call(&mut instr, "x", || Ok(())).ok().expect("s1");
    assert_eq!(cb.state(), CircuitState::HalfOpen);
    cb.call(&mut instr, "x", || Ok(())).ok().expect("s2");
    assert_eq!(cb.state(), CircuitState::Closed);
    assert_eq!(instr.close, 1);
}

#[test]
fn half_open_failure_reopens() {
    let mut cb = breaker();
    let mut instr = counting();
    let _ = cb.call(&mut instr, "x", || {
        Err::<(), _>(ResiliencxError::transient("a"))
    });
    let _ = cb.call(&mut instr, "x", || {
        Err::<(), _>(ResiliencxError::transient("b"))
    });
    let _ = cb.call(&mut instr, "x", || Ok(()));
    let _ = cb.call(&mut instr, "x", || Ok(()));
    assert_eq!(cb.state(), CircuitState::HalfOpen);
    let opens_before = instr.open;
    let _ = cb.call(&mut instr, "x", || {
        Err::<(), _>(ResiliencxError::transient("boom"))
    });
    assert_eq!(cb.state(), CircuitState::Open);
    assert_eq!(instr.open, opens_before + 1);
}

#[test]
fn default_config_constructible() {
    let cb = CircuitBreaker::new(CircuitConfig::default()).ok().expect("def");
    assert_eq!(cb.state(), CircuitState::Closed);
    assert_eq!(cb.config().failure_threshold, 5);
    let mut instr = counting();
    instr.record_retry("probe", 1);
}

#[test]
fn permanent_errors_do_not_trip_circuit() {
    let mut cb = breaker();
    let mut instr = NoopInstrumentation;
    for _ in 0..(cfg().failure_threshold + 5) {
        let _ = cb.call(&mut instr, "x", || {
            Err::<(), _>(ResiliencxError::invalid("永久错误"))
        });
        assert_eq!(
            cb.state(),
            CircuitState::Closed,
            "永久错误不应改变断路器状态"
        );
    }
}

#[test]
fn transient_errors_still_trip_circuit() {
    let mut cb = breaker();
    let mut instr = NoopInstrumentation;
    let thresh = cfg().failure_threshold;
    for _ in 0..thresh - 1 {
        let _ = cb.call(&mut instr, "x", || {
            Err::<(), _>(ResiliencxError::transient("临时"))
        });
        assert_eq!(cb.state(), CircuitState::Closed);
    }
    let _ = cb.call(&mut instr, "x", || {
        Err::<(), _>(ResiliencxError::transient("最后一次"))
    });
    assert_eq!(cb.state(), CircuitState::Open);
}

#[test]
fn mixed_errors_only_transient_counts() {
    let mut cb = breaker();
    let mut instr = NoopInstrumentation;
    let _ = cb.call(&mut instr, "x", || {
        Err::<(), _>(ResiliencxError::invalid("永久"))
    });
    assert_eq!(cb.state(), CircuitState::Closed);
    let _ = cb.call(&mut instr, "x", || {
        Err::<(), _>(ResiliencxError::transient("t1"))
    });
    assert_eq!(cb.state(), CircuitState::Closed);
    let _ = cb.call(&mut instr, "x", || {
        Err::<(), _>(ResiliencxError::invalid("永久2"))
    });
    assert_eq!(cb.state(), CircuitState::Closed);
    let _ = cb.call(&mut instr, "x", || {
        Err::<(), _>(ResiliencxError::transient("t2"))
    });
    assert_eq!(cb.state(), CircuitState::Open);
}

#[test]
fn half_open_permanent_error_does_not_reopen() {
    let mut cb = breaker();
    let mut instr = NoopInstrumentation;
    for _ in 0..cfg().failure_threshold {
        let _ = cb.call(&mut instr, "x", || {
            Err::<(), _>(ResiliencxError::transient("t"))
        });
    }
    assert_eq!(cb.state(), CircuitState::Open);
    for _ in 0..cfg().open_to_half_open_after_rejects {
        let _ = cb.call(&mut instr, "x", || Ok(()));
    }
    assert_eq!(cb.state(), CircuitState::HalfOpen);
    let _ = cb.call(&mut instr, "x", || {
        Err::<(), _>(ResiliencxError::invalid("永久"))
    });
    assert_eq!(
        cb.state(),
        CircuitState::HalfOpen,
        "永久错误在 HalfOpen 下不应导致重新跳闸"
    );
    for _ in 0..cfg().success_threshold {
        cb.call(&mut instr, "x", || Ok(())).ok().expect("成功");
    }
    assert_eq!(cb.state(), CircuitState::Closed);
}

#[test]
fn a_success_wipes_out_earlier_failures() {
    let mut cb = breaker();
    let mut instr = counting();
    let _ = cb.call(&mut instr, "x", || {
        Err::<(), _>(ResiliencxError::transient("1"))
    });
    cb.call(&mut instr, "x", || Ok(())).ok().expect("reset");
    let _ = cb.call(&mut instr, "x", || {
        Err::<(), _>(ResiliencxError::transient("2"))
    });
    assert_eq!(cb.state(), CircuitState::Closed);
    assert_eq!(instr.open, 0);
}

#[test]
fn a_refused_call_never_reaches_the_operation() {
    let mut cb = breaker();
    let mut instr = NoopInstrumentation;
    for _ in 0..2 {
        let _ = cb.call(&mut instr, "x", || {
            Err::<(), _>(ResiliencxError::transient("t"))
        });
    }
    let mut called = false;
    let refused = cb.call(&mut instr, "x", || {
        called = true;
        Ok(())
    });
    assert!(refused.is_err());
    assert!(!called);
}

#[test]
fn a_copy_of_a_breaker_goes_its_own_way() {
    let mut cb = breaker();
    let mut instr = NoopInstrumentation;
    let _ = cb.call(&mut instr, "x", || {
        Err::<(), _>(ResiliencxError::transient("1"))
    });
    let mut copy = cb.clone();
    let _ = copy.call(&mut instr, "x", || {
        Err::<(), _>(ResiliencxError::transient("2"))
    });
    assert_eq!(copy.state(), CircuitState::Open);
    assert_eq!(cb.state(), CircuitState::Closed);
}

#[test]
fn the_threshold_error_says_what_is_wrong() {
    let error = CircuitBreaker::new(CircuitConfig {
        failure_threshold: 0,
        success_threshold: 0,
        open_to_half_open_after_rejects: 0,
    })
    .expect_err("zero thresholds");
    assert_eq!(
        error.to_string(),
        "Invalid: circuit thresholds must be >= 1 (failure/success/open_to_half_open)"
    );
}

#[test]
fn refusals_count_whatever_the_call_would_have_done() {
    let mut instr = NoopInstrumentation;
    let mut breaker = CircuitBreaker::new(CircuitConfig {
        failure_threshold: 2,
        success_threshold: 1,
        open_to_half_open_after_rejects: 3,
    })
    .ok()
    .expect("breaker");
    // A permanent error in between neither counts nor resets.
    let _ = breaker.call(&mut instr, "op", || {
        Err::<(), _>(ResiliencxError::transient("t"))
    });
    let _ = breaker.call(&mut instr, "op", || {
        Err::<(), _>(ResiliencxError::invalid("i"))
    });
    assert_eq!(breaker.state(), CircuitState::Closed);
    let _ = breaker.call(&mut instr, "op", || {
        Err::<(), _>(ResiliencxError::transient("t"))
    });
    assert_eq!(breaker.state(), CircuitState::Open);
    let _ = breaker.call(&mut instr, "op", || Ok(()));
    let _ = breaker.call(&mut instr, "op", || {
        Err::<(), _>(ResiliencxError::transient("t"))
    });
    assert_eq!(breaker.state(), CircuitState::Open);
    let _ = breaker.call(&mut instr, "op", || {
        Err::<(), _>(ResiliencxError::invalid("i"))
    });
    assert_eq!(breaker.state(), CircuitState::HalfOpen);
}

#[test]
fn a_failed_trial_starts_all_over() {
    let mut instr = NoopInstrumentation;
    let mut breaker = CircuitBreaker::new(CircuitConfig {
        failure_threshold: 1,
        success_threshold: 2,
        open_to_half_open_after_rejects: 2,
    })
    .ok()
    .expect("breaker");
    let mut states = Vec::new();
    for succeeds in [
        false, true, true, true, false, true, true, true, true, false,
    ] {
        let _ = breaker.call(&mut instr, "op", || {
            if succeeds {
                Ok(())
            } else {
                Err(ResiliencxError::transient("t"))
            }
        });
        states.push(breaker.state());
    }
    assert_eq!(
        states,
        [
            CircuitState::Open,
            CircuitState::Open,
            CircuitState::HalfOpen,
            CircuitState::HalfOpen,
            CircuitState::Open,
            CircuitState::Open,
            CircuitState::HalfOpen,
            CircuitState::HalfOpen,
            CircuitState::Closed,
            CircuitState::Open,
        ]
    );
}
