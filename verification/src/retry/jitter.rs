//! Pure functions for the delay before a retry: the backoff and the jitter on it.

use super::{Backoff, RetryConfig};
use vstd::arithmetic::div_mod::*;
use vstd::arithmetic::mul::*;
use vstd::arithmetic::power::*;
use vstd::prelude::*;

verus! {

/// A whole delay, in basis points: the unit that jitter is counted in.
pub const FULL_BPS: u64 = 10_000;

/// By how many basis points a delay is cut: at most `jitter_bps` (and never more than the whole),
/// spread over that range by the attempt and the seed.
pub open spec fn jitter_offset(jitter_bps: u32, attempt: u32, seed: u64) -> int {
    let span = if jitter_bps < FULL_BPS {
        jitter_bps as int
    } else {
        FULL_BPS as int
    };
    ((attempt * 7919 + seed * 104_729) % 0x1_0000_0000_0000_0000) % (span + 1)
}

/// A delay after jitter: `delay_ms * (10000 - offset) / 10000`.
pub open spec fn jittered(delay_ms: int, jitter_bps: u32, attempt: u32, seed: u64) -> int {
    if delay_ms == 0 || jitter_bps == 0 {
        delay_ms
    } else {
        delay_ms * (FULL_BPS - jitter_offset(jitter_bps, attempt, seed)) / (FULL_BPS as int)
    }
}

impl RetryConfig {
    /// The delay after failure number `attempt` before any jitter:
    /// `min(base * factor^(attempt-1), max_delay_ms)` for an exponential backoff, with a factor
    /// of at least one.
    pub open spec fn raw_delay(self, attempt: u32) -> int {
        match self.backoff {
            Backoff::Constant => self.base_delay_ms as int,
            Backoff::Exponential { factor, max_delay_ms } => {
                let factor = if factor < 1 {
                    1
                } else {
                    factor as int
                };
                let grown = self.base_delay_ms * pow(factor, (attempt - 1) as nat);
                if grown < max_delay_ms {
                    grown
                } else {
                    max_delay_ms as int
                }
            },
        }
    }

    /// The delay between failure number `attempt` and the next attempt.
    pub open spec fn delay(self, attempt: u32, seed: u64) -> int {
        if self.base_delay_ms == 0 || attempt == 0 {
            0
        } else {
            jittered(self.raw_delay(attempt), self.jitter_bps, attempt, seed)
        }
    }
}

/// How many milliseconds to wait between failure number `attempt`, counted from one, and the
/// next attempt.
///
/// The jitter depends on `attempt` alone, so that every instance with the same configuration gets
/// the same sequence; [`retry_delay_ms_with_seed`] tells instances apart.
#[must_use]
pub fn retry_delay_ms(config: &RetryConfig, attempt: u32) -> (delay_ms: u64)
    ensures
        delay_ms == config.delay(attempt, 0),
{
    retry_delay_ms_with_seed(config, attempt, 0)
}

/// How many milliseconds to wait between failure number `attempt` and the next attempt, with
/// jitter that the caller's seed moves. The seed is no source of secrecy.
#[must_use]
pub fn retry_delay_ms_with_seed(config: &RetryConfig, attempt: u32, seed: u64) -> (delay_ms: u64)
    ensures
        delay_ms == config.delay(attempt, seed),
{
    if config.base_delay_ms == 0 || attempt == 0 {
        return 0;
    }
    let raw: u64 = match config.backoff {
        Backoff::Constant => config.base_delay_ms,
        Backoff::Exponential { factor, max_delay_ms } => grow(
            config.base_delay_ms,
            factor,
            max_delay_ms,
            attempt,
        ),
    };
    apply_seeded_jitter(raw, config.jitter_bps, attempt, seed)
}

/// `min(base * factor^(attempt-1), max)`, with a factor of at least one.
fn grow(base: u64, factor: u32, max: u64, attempt: u32) -> (grown: u64)
    requires
        attempt >= 1,
    ensures
        ({
            let factor = if factor < 1 {
                1
            } else {
                factor as int
            };
            let product = base * pow(factor, (attempt - 1) as nat);
            grown == if product < max {
                product
            } else {
                max as int
            }
        }),
{
    let f: u64 = if factor < 1 {
        1
    } else {
        factor as u64
    };
    let mut d: u64 = base;
    let mut i: u32 = 1;
    proof {
        lemma_pow0(f as int);
    }
    while i < attempt
        invariant
            1 <= i <= attempt,
            f >= 1,
            f == (if factor < 1 {
                1
            } else {
                factor as int
            }),
            d == base * pow(f as int, (i - 1) as nat),
        decreases attempt - i,
    {
        let grown: u64 = saturating_mul(d, f);
        proof {
            lemma_power_step(base as int, f as int, i as nat);
        }
        if grown >= max {
            proof {
                lemma_power_grows(base as int, f as int, i as nat, (attempt - 1) as nat);
            }
            return max;
        }
        d = grown;
        i = i + 1;
    }
    if d < max {
        d
    } else {
        max
    }
}

/// The product, or the largest `u64` where it does not fit.
fn saturating_mul(a: u64, b: u64) -> (product: u64)
    ensures
        product == if a * b < u64::MAX {
            a * b
        } else {
            u64::MAX as int
        },
{
    match a.checked_mul(b) {
        Some(product) => product,
        None => u64::MAX,
    }
}

proof fn lemma_power_step(base: int, f: int, i: nat)
    requires
        i >= 1,
    ensures
        base * pow(f, (i - 1) as nat) * f == base * pow(f, i),
{
    reveal(pow);
    let p = pow(f, (i - 1) as nat);
    assert(pow(f, i) == f * p);
    assert(base * p * f == base * (f * p)) by (nonlinear_arith);
}

proof fn lemma_power_grows(base: int, f: int, low: nat, high: nat)
    requires
        base >= 0,
        f >= 1,
        low <= high,
    ensures
        base * pow(f, low) <= base * pow(f, high),
{
    lemma_pow_increases(f as nat, low, high);
    lemma_mul_inequality(pow(f, low), pow(f, high), base);
    lemma_mul_is_commutative(base, pow(f, low));
    lemma_mul_is_commutative(base, pow(f, high));
}

/// Jitter that depends on the attempt alone: `delay * (10000 - offset) / 10000`, with `offset`
/// between zero and `jitter_bps`. It is [`apply_seeded_jitter`] with seed zero.
#[must_use]
pub fn apply_deterministic_jitter(delay_ms: u64, jitter_bps: u32, attempt: u32) -> (jittered_ms:
    u64)
    ensures
        jittered_ms == jittered(delay_ms as int, jitter_bps, attempt, 0),
{
    apply_seeded_jitter(delay_ms, jitter_bps, attempt, 0)
}

/// Jitter that depends on the attempt and on the caller's seed. The same arguments always give
/// the same delay.
#[must_use]
pub fn apply_seeded_jitter(delay_ms: u64, jitter_bps: u32, attempt: u32, seed: u64) -> (jittered_ms:
    u64)
    ensures
        jittered_ms == jittered(delay_ms as int, jitter_bps, attempt, seed),
{
    if delay_ms == 0 || jitter_bps == 0 {
        return delay_ms;
    }
    let span: u64 = if (jitter_bps as u64) < FULL_BPS {
        jitter_bps as u64
    } else {
        FULL_BPS
    };
    let scattered: u64 = (attempt as u64).wrapping_mul(7919).wrapping_add(
        seed.wrapping_mul(104_729),
    );
    proof {
        let modulus = 0x1_0000_0000_0000_0000int;
        lemma_add_mod_noop(attempt * 7919, seed * 104_729, modulus);
        lemma_small_mod((attempt * 7919) as nat, modulus as nat);
    }
    let offset: u64 = scattered % (span + 1);
    let keep: u64 = FULL_BPS - offset;
    proof {
        assert(0 <= delay_ms * keep <= delay_ms * FULL_BPS) by (nonlinear_arith)
            requires
                0 <= keep <= FULL_BPS,
                delay_ms >= 0,
        ;
    }
    ((delay_ms as u128 * keep as u128) / FULL_BPS as u128) as u64
}

/// Jitter only ever shortens a delay.
pub proof fn law_jitter_never_lengthens(delay_ms: u64, jitter_bps: u32, attempt: u32, seed: u64)
    ensures
        0 <= jittered(delay_ms as int, jitter_bps, attempt, seed) <= delay_ms,
{
    let offset = jitter_offset(jitter_bps, attempt, seed);
    lemma_offset_range(jitter_bps, attempt, seed);
    let keep = FULL_BPS - offset;
    assert(0 <= delay_ms * keep <= delay_ms * FULL_BPS) by (nonlinear_arith)
        requires
            0 <= keep <= FULL_BPS,
            delay_ms >= 0,
    ;
}

/// Jitter takes away no more than its share: what is left of a delay is at least
/// `delay * (10000 - jitter_bps) / 10000`.
pub proof fn law_jitter_keeps_the_rest(delay_ms: u64, jitter_bps: u32, attempt: u32, seed: u64)
    ensures
        jitter_bps <= FULL_BPS ==> jittered(delay_ms as int, jitter_bps, attempt, seed) >= delay_ms
            * (FULL_BPS - jitter_bps) / (FULL_BPS as int),
{
    if jitter_bps <= FULL_BPS {
        let offset = jitter_offset(jitter_bps, attempt, seed);
        lemma_offset_range(jitter_bps, attempt, seed);
        let keep = FULL_BPS - offset;
        let least = FULL_BPS - jitter_bps;
        assert(delay_ms * least <= delay_ms * keep <= delay_ms * FULL_BPS) by (nonlinear_arith)
            requires
                0 <= least <= keep <= FULL_BPS,
                delay_ms >= 0,
        ;
    }
}

/// Any jitter beyond the whole counts as the whole.
pub proof fn law_jitter_is_clamped(delay_ms: u64, jitter_bps: u32, attempt: u32, seed: u64)
    requires
        jitter_bps >= FULL_BPS,
    ensures
        jittered(delay_ms as int, jitter_bps, attempt, seed) == jittered(
            delay_ms as int,
            10_000,
            attempt,
            seed,
        ),
{
}

/// An exponential delay never exceeds its upper bound, with or without jitter.
pub proof fn law_delay_is_capped(config: RetryConfig, attempt: u32, seed: u64)
    requires
        config.backoff is Exponential,
    ensures
        0 <= config.delay(attempt, seed) <= config.backoff->max_delay_ms,
{
    if config.base_delay_ms != 0 && attempt != 0 {
        lemma_raw_delay_range(config, attempt);
        law_jitter_never_lengthens(
            config.raw_delay(attempt) as u64,
            config.jitter_bps,
            attempt,
            seed,
        );
    }
}

/// A constant delay never exceeds the base delay, and is the base delay where there is no jitter.
pub proof fn law_constant_delay(config: RetryConfig, attempt: u32, seed: u64)
    requires
        config.backoff is Constant,
        attempt >= 1,
    ensures
        0 <= config.delay(attempt, seed) <= config.base_delay_ms,
        config.jitter_bps == 0 ==> config.delay(attempt, seed) == config.base_delay_ms,
{
    law_jitter_never_lengthens(config.base_delay_ms, config.jitter_bps, attempt, seed);
}

/// Before jitter, a later retry never waits less than an earlier one.
pub proof fn law_backoff_never_shrinks(config: RetryConfig, earlier: u32, later: u32)
    requires
        1 <= earlier <= later,
    ensures
        config.raw_delay(earlier) <= config.raw_delay(later),
{
    match config.backoff {
        Backoff::Constant => {},
        Backoff::Exponential { factor, max_delay_ms } => {
            let f = if factor < 1 {
                1
            } else {
                factor as int
            };
            lemma_power_grows(
                config.base_delay_ms as int,
                f,
                (earlier - 1) as nat,
                (later - 1) as nat,
            );
        },
    }
}

/// A factor of zero or one is a constant delay, bounded by the maximum.
pub proof fn law_unit_factor_is_constant(config: RetryConfig, attempt: u32)
    requires
        attempt >= 1,
        config.backoff matches Backoff::Exponential { factor, .. } && factor <= 1,
    ensures
        config.raw_delay(attempt) == if config.base_delay_ms < config.backoff->max_delay_ms {
            config.base_delay_ms
        } else {
            config.backoff->max_delay_ms
        },
{
    lemma1_pow((attempt - 1) as nat);
}

/// A delay that grows at all reaches its upper bound, however late the attempt, and stays there.
pub proof fn law_growing_delay_reaches_its_cap(config: RetryConfig, attempt: u32)
    requires
        config.base_delay_ms >= 1,
        attempt > u64::BITS,
        config.backoff matches Backoff::Exponential { factor, .. } && factor >= 2,
    ensures
        config.raw_delay(attempt) == config.backoff->max_delay_ms,
{
    let factor = config.backoff->factor as int;
    let exponent = (attempt - 1) as nat;
    assert(pow(2, 64) > u64::MAX) by {
        reveal_with_fuel(pow, 65);
    }
    lemma_pow_increases(2, 64, exponent);
    lemma_base_grows(2, factor, exponent);
    assert(config.base_delay_ms * pow(factor, exponent) >= pow(factor, exponent))
        by (nonlinear_arith)
        requires
            config.base_delay_ms >= 1,
            pow(factor, exponent) >= 0,
    ;
}

/// Nearby seeds are told apart: two seeds that are no further apart than the jitter is wide cut a
/// delay by different amounts, unless the scattered value wraps around between them, and a delay
/// of at least ten seconds comes out different.
pub proof fn law_nearby_seeds_differ(
    delay_ms: u64,
    jitter_bps: u32,
    attempt: u32,
    seed: u64,
    other: u64,
)
    requires
        seed < other,
        other - seed <= jitter_bps,
        other - seed <= FULL_BPS,
        (attempt * 7919 + seed * 104_729) % 0x1_0000_0000_0000_0000 + (other - seed) * 104_729
            < 0x1_0000_0000_0000_0000,
    ensures
        jitter_offset(jitter_bps, attempt, seed) != jitter_offset(jitter_bps, attempt, other),
        FULL_BPS <= delay_ms ==> jittered(delay_ms as int, jitter_bps, attempt, seed) != jittered(
            delay_ms as int,
            jitter_bps,
            attempt,
            other,
        ),
{
    let modulus = 0x1_0000_0000_0000_0000int;
    let distance = other - seed;
    let low = attempt * 7919 + seed * 104_729;
    let high = attempt * 7919 + other * 104_729;
    let x = low % modulus;
    let y = high % modulus;
    assert(y == x + distance * 104_729) by {
        lemma_fundamental_div_mod(low, modulus);
        lemma_fundamental_div_mod_converse(
            high,
            modulus,
            low / modulus,
            x + distance * 104_729,
        );
    }
    let m = if jitter_bps < FULL_BPS {
        jitter_bps + 1
    } else {
        FULL_BPS + 1
    };
    let a = x % m;
    let b = y % m;
    if a == b {
        lemma_fundamental_div_mod(x, m);
        lemma_fundamental_div_mod(y, m);
        let steps = y / m - x / m;
        assert(distance * 104_729 == steps * m) by (nonlinear_arith)
            requires
                x == m * (x / m) + a,
                y == m * (y / m) + b,
                a == b,
                y == x + distance * 104_729,
                steps == y / m - x / m,
        ;
        lemma_mod_multiples_basic(steps, m);
        lemma_short_distance_is_no_multiple(m, distance);
        assert(false);
    }
    if FULL_BPS <= delay_ms {
        lemma_offset_range(jitter_bps, attempt, seed);
        lemma_offset_range(jitter_bps, attempt, other);
        lemma_keeps_differ(delay_ms as int, FULL_BPS - a, FULL_BPS - b);
    }
}

/// The seed's factor is a prime beyond every range of offsets, so that no distance shorter than
/// the range brings an offset back.
proof fn lemma_short_distance_is_no_multiple(m: int, distance: int)
    requires
        2 <= m <= FULL_BPS + 1,
        1 <= distance < m,
    ensures
        (distance * 104_729) % m != 0,
    decreases distance,
{
    if (distance * 104_729) % m == 0 {
        let k = (distance * 104_729) / m;
        lemma_fundamental_div_mod(distance * 104_729, m);
        let q = m / distance;
        let r = m % distance;
        lemma_fundamental_div_mod(m, distance);
        if r > 0 {
            assert(r * 104_729 == (104_729 - q * k) * m) by (nonlinear_arith)
                requires
                    m == distance * q + r,
                    distance * 104_729 == m * k,
            ;
            lemma_mod_multiples_basic(104_729 - q * k, m);
            lemma_short_distance_is_no_multiple(m, r);
        } else {
            assert(2 <= q <= m) by (nonlinear_arith)
                requires
                    m == distance * q,
                    1 <= distance < m,
            ;
            assert(104_729 == k * q) by (nonlinear_arith)
                requires
                    m == distance * q,
                    distance * 104_729 == m * k,
                    distance >= 1,
            ;
            lemma_mod_multiples_basic(k, q);
            lemma_step_is_not_divisible(q as u32);
        }
    }
}

/// Different shares of a long enough delay are different.
proof fn lemma_keeps_differ(delay_ms: int, a: int, b: int)
    requires
        FULL_BPS <= delay_ms,
        0 <= a <= FULL_BPS,
        0 <= b <= FULL_BPS,
        a != b,
    ensures
        delay_ms * a / (FULL_BPS as int) != delay_ms * b / (FULL_BPS as int),
{
    if a < b {
        assert(delay_ms * b >= delay_ms * a + FULL_BPS) by (nonlinear_arith)
            requires
                delay_ms >= FULL_BPS,
                b >= a + 1,
        ;
    } else {
        assert(delay_ms * a >= delay_ms * b + FULL_BPS) by (nonlinear_arith)
            requires
                delay_ms >= FULL_BPS,
                a >= b + 1,
        ;
    }
}

/// The seed's factor has no divisor within the range of offsets.
proof fn lemma_step_is_not_divisible(m: u32)
    by (bit_vector)
    requires
        2 <= m <= 10_001,
    ensures
        104_729u32 % m != 0,
{
}

proof fn lemma_offset_range(jitter_bps: u32, attempt: u32, seed: u64)
    ensures
        0 <= jitter_offset(jitter_bps, attempt, seed) <= FULL_BPS,
        jitter_offset(jitter_bps, attempt, seed) <= jitter_bps,
{
}

proof fn lemma_raw_delay_range(config: RetryConfig, attempt: u32)
    requires
        attempt >= 1,
    ensures
        0 <= config.raw_delay(attempt) <= u64::MAX,
        config.backoff matches Backoff::Exponential { max_delay_ms, .. } ==> config.raw_delay(
            attempt,
        ) <= max_delay_ms,
{
    match config.backoff {
        Backoff::Constant => {},
        Backoff::Exponential { factor, max_delay_ms } => {
            let f = if factor < 1 {
                1
            } else {
                factor as int
            };
            let power = pow(f, (attempt - 1) as nat);
            lemma_pow_positive(f, (attempt - 1) as nat);
            assert(config.base_delay_ms * power >= 0) by (nonlinear_arith)
                requires
                    power > 0,
            ;
        },
    }
}

proof fn lemma_base_grows(low: int, high: int, exponent: nat)
    requires
        1 <= low <= high,
    ensures
        1 <= pow(low, exponent) <= pow(high, exponent),
    decreases exponent,
{
    reveal(pow);
    if exponent > 0 {
        let rest = (exponent - 1) as nat;
        lemma_base_grows(low, high, rest);
        assert(1 <= low * pow(low, rest) <= high * pow(high, rest)) by (nonlinear_arith)
            requires
                1 <= low <= high,
                1 <= pow(low, rest) <= pow(high, rest),
        ;
    }
}

/// What jitter leaves of a delay, long or short, is the kept share rounded down. By `offset` basis
/// points the delay is cut, which the attempt and the seed choose between zero and `jitter_bps`; a
/// cut of at least one basis point makes every delay shorter. Without jitter nothing is cut.
pub proof fn law_jitter_cuts_by_the_offset(delay_ms: u64, jitter_bps: u32, attempt: u32, seed: u64)
    ensures
        ({
            let span = if jitter_bps < 10_000 {
                jitter_bps as int
            } else {
                10_000
            };
            let offset = ((attempt * 7919 + seed * 104_729) % 0x1_0000_0000_0000_0000) % (span + 1);
            let left = jittered(delay_ms as int, jitter_bps, attempt, seed);
            &&& left * 10_000 <= delay_ms * (10_000 - offset) < (left + 1) * 10_000
            &&& delay_ms > 0 && offset > 0 ==> left < delay_ms
            &&& jitter_bps == 0 ==> left == delay_ms
        }),
{
    let span = if jitter_bps < 10_000 {
        jitter_bps as int
    } else {
        10_000
    };
    let offset = ((attempt * 7919 + seed * 104_729) % 0x1_0000_0000_0000_0000) % (span + 1);
    let left = jittered(delay_ms as int, jitter_bps, attempt, seed);
    lemma_offset_range(jitter_bps, attempt, seed);
    let product = delay_ms * (10_000 - offset);
    if jitter_bps == 0 {
        assert(offset == 0);
        assert(product == delay_ms * 10_000);
    } else if delay_ms == 0 {
        assert(product == 0) by (nonlinear_arith)
            requires
                delay_ms == 0,
                product == delay_ms * (10_000 - offset),
        ;
    } else {
        assert(left == product / 10_000);
        if offset > 0 {
            assert(product <= delay_ms * 9_999) by (nonlinear_arith)
                requires
                    delay_ms > 0,
                    offset >= 1,
                    product == delay_ms * (10_000 - offset),
            ;
        }
    }
}

/// A delay is never negative and always fits in a `u64`.
pub proof fn law_delay_fits(config: RetryConfig, attempt: u32, seed: u64)
    ensures
        0 <= config.delay(attempt, seed) <= u64::MAX,
{
    if config.base_delay_ms != 0 && attempt != 0 {
        lemma_raw_delay_range(config, attempt);
        law_jitter_never_lengthens(
            config.raw_delay(attempt) as u64,
            config.jitter_bps,
            attempt,
            seed,
        );
    }
}

/// No base delay, or no failure yet, is no delay.
pub proof fn law_nothing_to_wait_for(config: RetryConfig, attempt: u32, seed: u64)
    requires
        config.base_delay_ms == 0 || attempt == 0,
    ensures
        config.delay(attempt, seed) == 0,
{
}

/// Without jitter an exponential delay starts at the base and is multiplied by the configured
/// factor from each retry to the next, within its bound and whatever the seed; a factor of zero
/// counts as one.
pub proof fn law_exponential_delays_multiply(
    config: RetryConfig,
    factor: u32,
    max_delay_ms: u64,
    attempt: u32,
    seed: u64,
    other: u64,
)
    requires
        config.jitter_bps == 0,
        config.backoff == (Backoff::Exponential { factor, max_delay_ms }),
        config.base_delay_ms >= 1,
        1 <= attempt < u32::MAX,
    ensures
        config.delay(1, seed) == if config.base_delay_ms < max_delay_ms {
            config.base_delay_ms
        } else {
            max_delay_ms
        },
        ({
            let f = if factor == 0 {
                1
            } else {
                factor as int
            };
            let product = config.delay(attempt, seed) * f;
            config.delay((attempt + 1) as u32, other) == if product < max_delay_ms {
                product
            } else {
                max_delay_ms as int
            }
        }),
{
    let f = if factor == 0 {
        1
    } else {
        factor as int
    };
    let base = config.base_delay_ms as int;
    lemma_pow0(f);
    lemma_power_step(base, f, attempt as nat);
    lemma_pow_positive(f, (attempt - 1) as nat);
    let grown = base * pow(f, (attempt - 1) as nat);
    assert(grown >= 0 && grown * f >= grown) by (nonlinear_arith)
        requires
            base >= 1,
            f >= 1,
            pow(f, (attempt - 1) as nat) > 0,
            grown == base * pow(f, (attempt - 1) as nat),
    ;
    if grown >= max_delay_ms {
        assert(max_delay_ms * f >= max_delay_ms) by (nonlinear_arith)
            requires
                f >= 1,
                max_delay_ms >= 0,
        ;
    }
}

/// Without jitter a constant delay is the base delay at every retry, whatever the seed.
pub proof fn law_constant_delays_stay(config: RetryConfig, attempt: u32, seed: u64)
    requires
        config.jitter_bps == 0,
        config.backoff is Constant,
        attempt >= 1,
    ensures
        config.delay(attempt, seed) == config.base_delay_ms,
{
}

/// With jitter a delay is what the same configuration without jitter gives, cut by the offset that
/// the attempt and the seed choose, and rounded down.
pub proof fn law_delay_is_the_plain_delay_cut(
    config: RetryConfig,
    attempt: u32,
    seed: u64,
    plain: RetryConfig,
)
    requires
        plain.max_attempts == config.max_attempts,
        plain.base_delay_ms == config.base_delay_ms,
        plain.backoff == config.backoff,
        plain.jitter_bps == 0,
    ensures
        ({
            let span = if config.jitter_bps < 10_000 {
                config.jitter_bps as int
            } else {
                10_000
            };
            let offset = ((attempt * 7919 + seed * 104_729) % 0x1_0000_0000_0000_0000) % (span + 1);
            let uncut = plain.delay(attempt, seed);
            let left = config.delay(attempt, seed);
            &&& left * 10_000 <= uncut * (10_000 - offset) < (left + 1) * 10_000
            &&& uncut > 0 && offset > 0 ==> left < uncut
            &&& config.jitter_bps == 0 ==> left == uncut
        }),
{
    law_delay_fits(plain, attempt, seed);
    let uncut = plain.delay(attempt, seed) as u64;
    law_jitter_cuts_by_the_offset(uncut, config.jitter_bps, attempt, seed);
    if config.base_delay_ms != 0 && attempt != 0 {
        assert(uncut == config.raw_delay(attempt));
    }
}

} // verus!
