//! Exponential backoff delays for the artifact fetcher.
//!
//! Each call to [`ExponentialBackoff::next_delay`] yields the next delay in
//! milliseconds: the i-th delay is `base^i * factor`, capped at `max_delay`
//! when one is set. Products that would not fit in a `u64` saturate, which
//! never lowers a delay below the cap.

use vstd::arithmetic::mul::lemma_mul_inequality;
use vstd::arithmetic::power::{lemma0_pow, lemma_pow1, lemma_pow_adds, lemma_pow_positive, pow};
use vstd::prelude::*;

verus! {

/// `x` clamped into the `u64` range from above; `x` must not be negative.
pub open spec fn sat64(x: int) -> u64
    recommends
        x >= 0,
{
    if x > u64::MAX {
        u64::MAX
    } else {
        x as u64
    }
}

/// Generator of exponentially growing retry delays, in milliseconds.
#[derive(Clone, Copy, Debug, PartialEq, Eq, Structural)]
pub struct ExponentialBackoff {
    /// The next power of `base` to scale by `factor`, in milliseconds.
    pub current: u64,
    pub base: u32,
    pub factor: u32,
    /// Upper bound on every delay, in milliseconds, when set.
    pub max_delay: Option<u64>,
}

impl ExponentialBackoff {
    /// The delay the next call to `next_delay` returns, and the state it
    /// leaves behind. When the uncapped delay exceeds `max_delay` the
    /// state does not advance: every later delay is the cap as well.
    pub open spec fn spec_next(self) -> (u64, ExponentialBackoff) {
        let raw = sat64(self.current as int * self.factor as int);
        if self.max_delay is Some && raw > self.max_delay->0 {
            (self.max_delay->0, self)
        } else {
            (
                raw,
                ExponentialBackoff {
                    current: sat64(self.current as int * self.base as int),
                    ..self
                },
            )
        }
    }

    pub fn new(base: u32) -> (r: Self)
        ensures
            r == (ExponentialBackoff {
                current: base as u64,
                base: base,
                factor: 1u32,
                max_delay: None::<u64>,
            }),
    {
        ExponentialBackoff { current: base as u64, base, factor: 1, max_delay: None }
    }

    pub fn factor(self, factor: u32) -> (r: Self)
        ensures
            r == (ExponentialBackoff { factor: factor, ..self }),
    {
        ExponentialBackoff { factor, ..self }
    }

    pub fn max_delay(self, max_delay: u64) -> (r: Self)
        ensures
            r == (ExponentialBackoff { max_delay: Some(max_delay), ..self }),
    {
        ExponentialBackoff { max_delay: Some(max_delay), ..self }
    }

    /// The first `n` delays this generator hands out, in order.
    pub open spec fn spec_delays(self, n: nat) -> Seq<u64>
        decreases n,
    {
        if n == 0 {
            Seq::empty()
        } else {
            let (d, next) = self.spec_next();
            seq![d] + next.spec_delays((n - 1) as nat)
        }
    }

    /// Produce the next delay and advance the generator.
    pub fn next_delay(&mut self) -> (d: u64)
        ensures
            (d, *final(self)) == old(self).spec_next(),
    {
        let duration = match self.current.checked_mul(self.factor as u64) {
            Some(x) => x,
            None => u64::MAX,
        };

        if let Some(m) = self.max_delay {
            if duration > m {
                return m;
            }
        }

        self.current = match self.current.checked_mul(self.base as u64) {
            Some(x) => x,
            None => u64::MAX,
        };

        duration
    }
}

/// The delay owed to a given attempt (1-based) under a cap:
/// `min(max_delay, base^attempt * factor)`.
pub open spec fn spec_capped_delay(base: int, factor: int, max_delay: int, attempt: nat) -> int {
    let raw = pow(base, attempt) * factor;
    if raw > max_delay {
        max_delay
    } else {
        raw
    }
}

/// The generator state after `attempts_done` delays of a capped run:
/// either `current` still tracks the exact power of the base, or the cap
/// has been reached (possibly through `u64` saturation) and every later
/// delay is the cap; a zero factor yields zero delays throughout.
pub open spec fn backoff_tracks(
    b: ExponentialBackoff,
    base: u32,
    factor: u32,
    max_delay: u64,
    attempts_done: nat,
) -> bool {
    &&& b.base == base
    &&& b.factor == factor
    &&& b.max_delay == Some(max_delay)
    &&& {
        ||| b.current as int == pow(base as int, attempts_done + 1)
        ||| (base >= 1 && factor >= 1 && b.current as int * factor as int >= max_delay as int
            && pow(base as int, attempts_done + 1) * factor as int > max_delay as int)
        ||| factor == 0
    }
}

/// One step of a capped run: the delay is `min(max_delay, base^attempt *
/// factor)`, and the state keeps tracking.
pub proof fn lemma_backoff_step(
    b: ExponentialBackoff,
    base: u32,
    factor: u32,
    max_delay: u64,
    attempts_done: nat,
)
    requires
        backoff_tracks(b, base, factor, max_delay, attempts_done),
    ensures
        b.spec_next().0 as int == spec_capped_delay(
            base as int,
            factor as int,
            max_delay as int,
            attempts_done + 1,
        ),
        backoff_tracks(b.spec_next().1, base, factor, max_delay, attempts_done + 1),
{
    let e: nat = attempts_done + 1;
    let p: int = pow(base as int, e);
    let pn: int = pow(base as int, e + 1);
    let f: int = factor as int;
    let m: int = max_delay as int;
    let cur: int = b.current as int;
    assert(pn == p * base as int) by {
        lemma_pow_adds(base as int, e, 1);
        lemma_pow1(base as int);
    }
    if factor == 0 {
        assert(cur * f == 0) by (nonlinear_arith)
            requires
                f == 0,
        ;
        assert(p * f == 0) by (nonlinear_arith)
            requires
                f == 0,
        ;
        assert(pn * f == 0) by (nonlinear_arith)
            requires
                f == 0,
        ;
        return ;
    }
    if cur == p {
        // `current` still tracks the exact power of the base.
        assert(p >= 0);
        if p * f <= u64::MAX {
            if p * f > m {
                // The cap is reached this very step.
                assert(p >= 1 && base >= 1) by {
                    if p <= 0 {
                        assert(p * f <= 0) by (nonlinear_arith)
                            requires
                                p <= 0,
                                f >= 0,
                        ;
                    }
                    if base == 0 {
                        lemma0_pow(e);
                    }
                }
                assert(p <= pn) by {
                    lemma_mul_inequality(1, base as int, p);
                }
                lemma_mul_inequality(p, pn, f);
            } else {
                // Still below the cap: the delay is the exact product.
                if pn <= u64::MAX {
                } else {
                    // `current` saturates; every later delay is the cap.
                    assert(p >= 1 && base >= 1) by {
                        if p <= 0 {
                            assert(p * base as int <= 0) by (nonlinear_arith)
                                requires
                                    p <= 0,
                                    base as int >= 0,
                            ;
                        }
                        if base == 0 {
                            lemma0_pow(e);
                        }
                    }
                    assert(u64::MAX as int * f >= u64::MAX as int) by {
                        lemma_mul_inequality(1, f, u64::MAX as int);
                    }
                    assert(pn * f >= pn) by {
                        lemma_mul_inequality(1, f, pn);
                    }
                }
            }
        } else {
            // The raw product saturates; it is certainly over the cap.
            assert(p >= 1 && base >= 1) by {
                if p <= 0 {
                    assert(p * f <= 0) by (nonlinear_arith)
                        requires
                            p <= 0,
                            f >= 0,
                    ;
                }
                if base == 0 {
                    lemma0_pow(e);
                }
            }
            assert(p <= pn) by {
                lemma_mul_inequality(1, base as int, p);
            }
            assert(p * f <= pn * f) by {
                lemma_mul_inequality(p, pn, f);
            }
            if max_delay == u64::MAX {
                // The saturated product equals the cap: the generator
                // advances, but stays at or above the cap.
                let curn: int = b.spec_next().1.current as int;
                assert(cur <= curn) by {
                    lemma_mul_inequality(1, base as int, cur);
                }
                assert(curn * f >= cur * f) by {
                    lemma_mul_inequality(cur, curn, f);
                }
                assert(cur * f > m);
            }
        }
    } else {
        // The cap was reached earlier: the delay stays the cap and the
        // state keeps satisfying the same bound.
        assert(base >= 1 && factor >= 1);
        lemma_pow_positive(base as int, e);
        assert(p <= pn) by {
            lemma_mul_inequality(1, base as int, p);
        }
        assert(p * f <= pn * f) by {
            lemma_mul_inequality(p, pn, f);
        }
        let raw: u64 = sat64(cur * f);
        assert(raw as int >= m) by {
            if cur * f > u64::MAX {
            }
        }
        if raw > max_delay {
        } else {
            // The saturated product equals the cap exactly; the
            // generator advances but keeps the bound.
            let curn: int = b.spec_next().1.current as int;
            assert(cur <= curn) by {
                lemma_mul_inequality(1, base as int, cur);
            }
            assert(curn * f >= cur * f) by {
                lemma_mul_inequality(cur, curn, f);
            }
        }
    }
}

/// The whole run: the i-th delay (0-based position, attempt `k + i + 1`)
/// of a tracking generator follows the capped formula.
pub proof fn lemma_delays_formula(
    b: ExponentialBackoff,
    base: u32,
    factor: u32,
    max_delay: u64,
    attempts_done: nat,
    n: nat,
)
    requires
        backoff_tracks(b, base, factor, max_delay, attempts_done),
    ensures
        b.spec_delays(n).len() == n,
        forall|i: int|
            0 <= i < n ==> b.spec_delays(n)[i] as int == spec_capped_delay(
                base as int,
                factor as int,
                max_delay as int,
                (attempts_done + i + 1) as nat,
            ),
    decreases n,
{
    if n > 0 {
        lemma_backoff_step(b, base, factor, max_delay, attempts_done);
        let (d, next) = b.spec_next();
        lemma_delays_formula(next, base, factor, max_delay, attempts_done + 1, (n - 1) as nat);
        assert forall|i: int|
            0 <= i < n implies b.spec_delays(n)[i] as int == spec_capped_delay(
            base as int,
            factor as int,
            max_delay as int,
            (attempts_done + i + 1) as nat,
        ) by {
            if i > 0 {
                assert(b.spec_delays(n)[i] == next.spec_delays((n - 1) as nat)[i - 1]);
            }
        }
    }
}

/// The delay sequence of the retry protocol: the i-th delay (1-based) of
/// a generator built by `new(base).factor(factor).max_delay(max_delay)`
/// is `min(max_delay, base^i * factor)`.
pub proof fn lemma_backoff_delay_formula(base: u32, factor: u32, max_delay: u64, n: nat)
    ensures
        forall|i: int|
            0 <= i < n ==> #[trigger] (ExponentialBackoff {
                current: base as u64,
                base: base,
                factor: factor,
                max_delay: Some(max_delay),
            }).spec_delays(n)[i] as int == spec_capped_delay(
                base as int,
                factor as int,
                max_delay as int,
                (i + 1) as nat,
            ),
{
    let b0 = ExponentialBackoff {
        current: base as u64,
        base,
        factor,
        max_delay: Some(max_delay),
    };
    lemma_pow1(base as int);
    assert(b0.current as int == pow(base as int, 1));
    lemma_delays_formula(b0, base, factor, max_delay, 0, n);
}

} // verus!
