//! Single-pole exponential moving average over fixed-point values.
//!
//! Values and the smoothing coefficient are integers scaled by one
//! million (parts per million), so the whole module stays free of
//! floating point. A fresh average emits its first observation
//! verbatim; afterwards it produces `alpha * x + (1 - alpha) * prev`,
//! rounded to the nearest unit (half up).

use vstd::prelude::*;
use vstd::math::abs;
use vstd::arithmetic::div_mod::{
    lemma_div_is_ordered, lemma_div_multiples_vanish_fancy, lemma_hoist_over_denominator,
};

verus! {

/// One smoothing step: `alpha * x + (1 - alpha) * prev`, in parts per
/// million, rounded half up.
pub open spec fn ema_step(alpha: int, prev: int, x: int) -> int {
    (alpha * x + (1_000_000 - alpha) * prev + 500_000) / 1_000_000
}

/// What one observation produces for a given prior state.
pub open spec fn ema_output(alpha: int, state: Option<u64>, x: u64) -> int {
    match state {
        None => x as int,
        Some(p) => ema_step(alpha, p as int, x as int),
    }
}

/// The average after feeding the constant `x` to state `prev`, `n` times.
pub open spec fn ema_iter(alpha: int, prev: int, x: int, n: nat) -> int
    decreases n,
{
    if n == 0 {
        prev
    } else {
        ema_step(alpha, ema_iter(alpha, prev, x, (n - 1) as nat), x)
    }
}

/// Exponential moving average state.
pub struct Ema {
    /// Smoothing coefficient in parts per million, strictly between 0 and 1.
    pub alpha: u32,
    /// Last emitted value, or `None` before the first observation.
    pub state: Option<u64>,
}

impl Ema {
    /// A coefficient is usable when it lies strictly between 0 and 1.
    pub open spec fn wf(self) -> bool {
        0 < self.alpha < 1_000_000
    }

    /// Create a fresh average with the given coefficient.
    pub fn new(alpha: u32) -> (r: Ema)
        requires
            0 < alpha < 1_000_000,
        ensures
            r.wf(),
            r.alpha == alpha,
            r.state is None,
    {
        Ema { alpha, state: None }
    }

    /// Feed one observation and return the smoothed value.
    pub fn feed(&mut self, x: u64) -> (r: u64)
        requires
            old(self).wf(),
        ensures
            final(self).wf(),
            final(self).alpha == old(self).alpha,
            r as int == ema_output(old(self).alpha as int, old(self).state, x),
            final(self).state == Some(r),
    {
        match self.state {
            None => {
                self.state = Some(x);
                x
            },
            Some(p) => {
                let a = self.alpha as u128;
                proof {
                    assert(a * (x as u128) <= 1_000_000 * (u64::MAX as u128)
                        && (1_000_000 - a) * (p as u128) <= 1_000_000 * (u64::MAX as u128))
                        by (nonlinear_arith)
                        requires
                            0 < a < 1_000_000,
                            x as u128 <= u64::MAX as u128,
                            p as u128 <= u64::MAX as u128,
                    ;
                }
                let num: u128 = a * (x as u128) + (1_000_000 - a) * (p as u128) + 500_000;
                proof {
                    let m = if x >= p { x as int } else { p as int };
                    assert(num as int <= 1_000_000 * m + 999_999) by (nonlinear_arith)
                        requires
                            0 < a < 1_000_000,
                            x as int <= m,
                            p as int <= m,
                            0 <= x as int,
                            0 <= p as int,
                            num as int == a * (x as u128) + (1_000_000 - a) * (p as u128)
                                + 500_000,
                    ;
                    lemma_div_multiples_vanish_fancy(m, 999_999, 1_000_000);
                    lemma_div_is_ordered(num as int, 1_000_000 * m + 999_999, 1_000_000);
                    assert(num as int / 1_000_000 <= u64::MAX as int);
                }
                let q: u128 = num / 1_000_000;
                let r: u64 = q as u64;
                self.state = Some(r);
                r
            },
        }
    }

    /// Drop all accumulated state.
    pub fn reset(&mut self)
        ensures
            final(self).alpha == old(self).alpha,
            final(self).state is None,
    {
        self.state = None;
    }
}

/// A smoothing step stays within the bounds of its inputs.
pub proof fn lemma_ema_step_bounds(alpha: int, prev: int, x: int, m: int)
    requires
        0 < alpha < 1_000_000,
        0 <= prev <= m,
        0 <= x <= m,
    ensures
        0 <= ema_step(alpha, prev, x) <= m,
{
    let num = alpha * x + (1_000_000 - alpha) * prev + 500_000;
    assert(0 <= num <= 1_000_000 * m + 999_999) by (nonlinear_arith)
        requires
            0 < alpha < 1_000_000,
            0 <= prev <= m,
            0 <= x <= m,
            num == alpha * x + (1_000_000 - alpha) * prev + 500_000,
    ;
    lemma_div_multiples_vanish_fancy(m, 999_999, 1_000_000);
    lemma_div_is_ordered(num, 1_000_000 * m + 999_999, 1_000_000);
    lemma_div_is_ordered(0, num, 1_000_000);
}

/// What one observation produces stays within the bounds of the
/// observation and the prior state.
pub proof fn lemma_ema_output_bounds(alpha: int, state: Option<u64>, x: u64, m: int)
    requires
        0 < alpha < 1_000_000,
        x <= m,
        state matches Some(p) ==> p <= m,
    ensures
        0 <= ema_output(alpha, state, x) <= m,
{
    match state {
        None => {},
        Some(p) => {
            lemma_ema_step_bounds(alpha, p as int, x as int, m);
        },
    }
}

/// The distance from the target after one step is `((1 - alpha) * d + 1/2) / 1`
/// in scaled units, where `d` is the prior distance.
proof fn lemma_ema_step_error(alpha: int, prev: int, x: int)
    requires
        0 < alpha < 1_000_000,
    ensures
        ema_step(alpha, prev, x) - x == ((1_000_000 - alpha) * (prev - x) + 500_000) / 1_000_000,
{
    let e = (1_000_000 - alpha) * (prev - x) + 500_000;
    assert(alpha * x + (1_000_000 - alpha) * prev + 500_000 == 1_000_000 * x + ((1_000_000
        - alpha) * (prev - x) + 500_000)) by (nonlinear_arith);
    lemma_hoist_over_denominator(e, x, 1_000_000nat);
    assert((e + x * 1_000_000) / 1_000_000 == e / 1_000_000 + x);
    assert(1_000_000 * x + e == e + x * 1_000_000) by (nonlinear_arith);
}

/// Feeding the input the average has already converged to never moves
/// the average further away: the error after a step is at most the
/// error before it.
pub proof fn lemma_ema_constant_non_expansive(alpha: int, prev: int, x: int)
    requires
        0 < alpha < 1_000_000,
    ensures
        abs(ema_step(alpha, prev, x) - x) <= abs(prev - x),
{
    lemma_ema_step_error(alpha, prev, x);
    let d = prev - x;
    let e = (1_000_000 - alpha) * d + 500_000;
    if d >= 0 {
        assert(0 <= e <= 1_000_000 * d + 999_999) by (nonlinear_arith)
            requires
                0 < alpha < 1_000_000,
                d >= 0,
                e == (1_000_000 - alpha) * d + 500_000,
        ;
        lemma_div_multiples_vanish_fancy(d, 999_999, 1_000_000);
        lemma_div_is_ordered(e, 1_000_000 * d + 999_999, 1_000_000);
        lemma_div_is_ordered(0, e, 1_000_000);
    } else {
        assert(1_000_000 * d <= e <= 999_999) by (nonlinear_arith)
            requires
                0 < alpha < 1_000_000,
                d < 0,
                e == (1_000_000 - alpha) * d + 500_000,
        ;
        lemma_div_is_ordered(1_000_000 * d, e, 1_000_000);
        lemma_div_is_ordered(e, 999_999, 1_000_000);
        lemma_div_multiples_vanish_fancy(0, 999_999, 1_000_000);
        assert((1_000_000 * d) / 1_000_000 == d) by {
            lemma_div_multiples_vanish_fancy(d, 0, 1_000_000);
        }
    }
}

/// While the error is outside the band `1 / (2 * alpha)`, each constant
/// observation shrinks it by at least one scaled unit.
pub proof fn lemma_ema_constant_contracts(alpha: int, prev: int, x: int)
    requires
        0 < alpha < 1_000_000,
        2 * alpha * abs(prev - x) > 1_000_000,
    ensures
        abs(ema_step(alpha, prev, x) - x) < abs(prev - x),
{
    lemma_ema_step_error(alpha, prev, x);
    let d = prev - x;
    let e = (1_000_000 - alpha) * d + 500_000;
    if d >= 0 {
        assert(0 <= e <= 1_000_000 * (d - 1) + 999_999) by (nonlinear_arith)
            requires
                0 < alpha < 1_000_000,
                d >= 0,
                2 * alpha * d > 1_000_000,
                e == (1_000_000 - alpha) * d + 500_000,
        ;
        lemma_div_multiples_vanish_fancy(d - 1, 999_999, 1_000_000);
        lemma_div_is_ordered(e, 1_000_000 * (d - 1) + 999_999, 1_000_000);
        lemma_div_is_ordered(0, e, 1_000_000);
    } else {
        assert(1_000_000 * (d + 1) <= e <= 999_999) by (nonlinear_arith)
            requires
                0 < alpha < 1_000_000,
                d < 0,
                2 * alpha * (-d) > 1_000_000,
                e == (1_000_000 - alpha) * d + 500_000,
        ;
        lemma_div_is_ordered(1_000_000 * (d + 1), e, 1_000_000);
        assert((1_000_000 * (d + 1)) / 1_000_000 == d + 1) by {
            lemma_div_multiples_vanish_fancy(d + 1, 0, 1_000_000);
        }
        lemma_div_is_ordered(e, 999_999, 1_000_000);
        lemma_div_multiples_vanish_fancy(0, 999_999, 1_000_000);
    }
}

/// Once the error sits inside the band `1 / (2 * alpha)`, constant
/// observations keep it there.
pub proof fn lemma_ema_constant_stable(alpha: int, prev: int, x: int)
    requires
        0 < alpha < 1_000_000,
        2 * alpha * abs(prev - x) <= 1_000_000,
    ensures
        2 * alpha * abs(ema_step(alpha, prev, x) - x) <= 1_000_000,
{
    lemma_ema_constant_non_expansive(alpha, prev, x);
    assert(2 * alpha * abs(ema_step(alpha, prev, x) - x) <= 2 * alpha * abs(prev - x))
        by (nonlinear_arith)
        requires
            0 < alpha,
            abs(ema_step(alpha, prev, x) - x) <= abs(prev - x),
            0 <= abs(ema_step(alpha, prev, x) - x),
    ;
}

/// One step scales the error by at most `(1 - alpha)`, up to the
/// half-unit rounding: in scaled form,
/// `S * |err'| <= (S - alpha) * |err| + S/2` with `S` the fixed-point
/// scale.
proof fn lemma_ema_step_abs(alpha: int, prev: int, x: int)
    requires
        0 < alpha < 1_000_000,
    ensures
        1_000_000 * abs(ema_step(alpha, prev, x) - x) <= (1_000_000 - alpha) * abs(prev - x)
            + 500_000,
{
    lemma_ema_step_error(alpha, prev, x);
    let d = prev - x;
    let e = (1_000_000 - alpha) * d + 500_000;
    let q = e / 1_000_000;
    vstd::arithmetic::div_mod::lemma_fundamental_div_mod(e, 1_000_000);
    vstd::arithmetic::div_mod::lemma_mod_bound(e, 1_000_000);
    if d >= 0 {
        assert(e >= 0) by (nonlinear_arith)
            requires
                0 < alpha < 1_000_000,
                d >= 0,
                e == (1_000_000 - alpha) * d + 500_000,
        ;
        vstd::arithmetic::div_mod::lemma_div_pos_is_pos(e, 1_000_000);
        assert(1_000_000 * q <= e);
        assert((1_000_000 - alpha) * d == (1_000_000 - alpha) * abs(d)) by (nonlinear_arith)
            requires
                d >= 0,
                abs(d) == d,
        ;
    } else {
        assert(e < 1_000_000) by (nonlinear_arith)
            requires
                0 < alpha < 1_000_000,
                d < 0,
                e == (1_000_000 - alpha) * d + 500_000,
        ;
        lemma_div_is_ordered(e, 999_999, 1_000_000);
        lemma_div_multiples_vanish_fancy(0, 999_999, 1_000_000);
        assert(q <= 0);
        assert(1_000_000 * q >= e - 999_999);
        assert(1_000_000 * (-q) <= -e + 999_999);
        assert(-e + 999_999 <= (1_000_000 - alpha) * abs(d) + 500_000) by (nonlinear_arith)
            requires
                0 < alpha < 1_000_000,
                d < 0,
                abs(d) == -d,
                e == (1_000_000 - alpha) * d + 500_000,
        ;
    }
}

/// Geometric decay on constant input: in scaled form, the error after
/// `n` steps obeys
/// `2 * alpha * S^n * |err_n| <= 2 * alpha * (S - alpha)^n * |err_0| + S^(n+1)`
/// with `S` the fixed-point scale — that is, the error decays like
/// `(1 - alpha)^n` down to the half-unit rounding floor `1 / (2 * alpha)`.
/// The iteration count after which the first term drops below one
/// scaled unit is therefore `log(1e-6) / log(1 - alpha)` of the spec's
/// convergence statement.
pub proof fn lemma_ema_constant_geometric(alpha: int, prev: int, x: int, n: nat)
    requires
        0 < alpha < 1_000_000,
    ensures
        2 * alpha * vstd::arithmetic::power::pow(1_000_000, n) * abs(
            ema_iter(alpha, prev, x, n) - x,
        ) <= 2 * alpha * vstd::arithmetic::power::pow(1_000_000 - alpha, n) * abs(prev - x)
            + vstd::arithmetic::power::pow(1_000_000, (n + 1) as nat),
    decreases n,
{
    reveal(vstd::arithmetic::power::pow);
    let e0 = abs(prev - x);
    if n == 0 {
        assert(vstd::arithmetic::power::pow(1_000_000, 0) == 1);
        assert(vstd::arithmetic::power::pow(1_000_000 - alpha, 0) == 1);
        assert(vstd::arithmetic::power::pow(1_000_000, 1nat) == 1_000_000 * vstd::arithmetic::power::pow(
            1_000_000,
            0,
        ));
        assert(2 * alpha * 1 * e0 <= 2 * alpha * 1 * e0 + 1_000_000) by (nonlinear_arith)
            requires
                0 <= e0,
        ;
    } else {
        let m = (n - 1) as nat;
        lemma_ema_constant_geometric(alpha, prev, x, m);
        let em = abs(ema_iter(alpha, prev, x, m) - x);
        let en = abs(ema_iter(alpha, prev, x, n) - x);
        lemma_ema_step_abs(alpha, ema_iter(alpha, prev, x, m), x);
        let p = vstd::arithmetic::power::pow(1_000_000, m);
        let q = vstd::arithmetic::power::pow(1_000_000 - alpha, m);
        vstd::arithmetic::power::lemma_pow_positive(1_000_000, m);
        vstd::arithmetic::power::lemma_pow_positive(1_000_000 - alpha, m);
        assert(vstd::arithmetic::power::pow(1_000_000, n) == 1_000_000 * p);
        assert(vstd::arithmetic::power::pow(1_000_000 - alpha, n) == (1_000_000 - alpha) * q);
        assert(vstd::arithmetic::power::pow(1_000_000, (n + 1) as nat) == 1_000_000
            * vstd::arithmetic::power::pow(1_000_000, n));
        assert(vstd::arithmetic::power::pow(1_000_000, (m + 1) as nat) == 1_000_000 * p);
        // Multiply the one-step bound by the positive factor 2*alpha*p.
        assert(2 * alpha * p * (1_000_000 * en) <= 2 * alpha * p * ((1_000_000 - alpha) * em
            + 500_000)) by (nonlinear_arith)
            requires
                0 < alpha,
                0 < p,
                1_000_000 * en <= (1_000_000 - alpha) * em + 500_000,
        ;
        // Multiply the induction hypothesis by the positive factor (S - alpha).
        assert((1_000_000 - alpha) * (2 * alpha * p * em) <= (1_000_000 - alpha) * (2 * alpha * q
            * e0 + 1_000_000 * p)) by (nonlinear_arith)
            requires
                0 < alpha < 1_000_000,
                2 * alpha * p * em <= 2 * alpha * q * e0 + 1_000_000 * p,
        ;
        // Combine and regroup.
        assert(2 * alpha * (1_000_000 * p) * en <= 2 * alpha * ((1_000_000 - alpha) * q) * e0
            + 1_000_000 * (1_000_000 * p)) by (nonlinear_arith)
            requires
                0 < alpha < 1_000_000,
                0 < p,
                0 < q,
                2 * alpha * p * (1_000_000 * en) <= 2 * alpha * p * ((1_000_000 - alpha) * em
                    + 500_000),
                (1_000_000 - alpha) * (2 * alpha * p * em) <= (1_000_000 - alpha) * (2 * alpha * q
                    * e0 + 1_000_000 * p),
        ;
    }
}

/// Helper for convergence: after `n` constant observations the error is
/// either inside the band or has shrunk by at least `n` units.
proof fn lemma_ema_constant_progress(alpha: int, prev: int, x: int, n: nat)
    requires
        0 < alpha < 1_000_000,
    ensures
        2 * alpha * abs(ema_iter(alpha, prev, x, n) - x) <= 1_000_000
            || abs(ema_iter(alpha, prev, x, n) - x) + n <= abs(prev - x),
    decreases n,
{
    if n > 0 {
        let m = (n - 1) as nat;
        lemma_ema_constant_progress(alpha, prev, x, m);
        let e_prev = ema_iter(alpha, prev, x, m);
        if 2 * alpha * abs(e_prev - x) <= 1_000_000 {
            lemma_ema_constant_stable(alpha, e_prev, x);
        } else {
            lemma_ema_constant_contracts(alpha, e_prev, x);
        }
    }
}

/// Convergence on constant input: after at most `|prev - x|` scaled
/// steps the average stays within `1 / (2 * alpha)` of `x` forever.
/// With `alpha = 1/2` the band is a single scaled unit, i.e. a relative
/// error of one part per million at unit scale.
pub proof fn lemma_ema_constant_converges(alpha: int, prev: int, x: int, n: nat)
    requires
        0 < alpha < 1_000_000,
        n >= abs(prev - x),
    ensures
        2 * alpha * abs(ema_iter(alpha, prev, x, n) - x) <= 1_000_000,
{
    lemma_ema_constant_progress(alpha, prev, x, n);
    let e = ema_iter(alpha, prev, x, n);
    if !(2 * alpha * abs(e - x) <= 1_000_000) {
        assert(abs(e - x) + n <= abs(prev - x));
        assert(abs(e - x) == 0);
        assert(2 * alpha * 0 == 0) by (nonlinear_arith);
    }
}

} // verus!
