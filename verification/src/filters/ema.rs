//! Exponential moving average filter.
//!
//! Smoothing step: `output = alpha * input + (1 - alpha) * previous`, with
//! `alpha` a normalized fixed-point weight in `(0, SCALE]`. The first call
//! seeds the filter and returns the input unchanged.

use vstd::arithmetic::div_mod::lemma_div_is_ordered;
use vstd::arithmetic::div_mod::lemma_div_multiples_vanish;
use vstd::arithmetic::div_mod::lemma_div_pos_is_pos;
use vstd::arithmetic::div_mod::lemma_fundamental_div_mod;
use vstd::arithmetic::div_mod::lemma_fundamental_div_mod_converse_div;
use vstd::arithmetic::div_mod::lemma_hoist_over_denominator;
use vstd::arithmetic::div_mod::lemma_mod_division_less_than_divisor;
use vstd::prelude::*;

use crate::SCALE;
use crate::VALUE_LIMIT;

verus! {

/// Exponential moving average filter state.
#[derive(Debug, Clone, Copy)]
pub struct EmaFilter {
    previous: i64,
    initialized: bool,
}

/// The smoothed value one EMA step produces: the weighted mix of the input and
/// the previous output, rounded down to a whole normalized unit.
pub open spec fn ema_step(previous: int, input: int, alpha: int) -> int {
    (alpha * input + (SCALE - alpha) * previous) / (SCALE as int)
}

/// The filter value after `k` EMA steps on a constant `input`.
pub open spec fn ema_iter(previous: int, input: int, alpha: int, k: nat) -> int
    decreases k,
{
    if k == 0 {
        previous
    } else {
        ema_step(ema_iter(previous, input, alpha, (k - 1) as nat), input, alpha)
    }
}

/// Distance between two integers.
pub open spec fn dist(a: int, b: int) -> int {
    if a >= b {
        a - b
    } else {
        b - a
    }
}

/// What one call of the filter emits: the input itself on the seeding call,
/// and an EMA step from the previous output afterwards.
pub open spec fn ema_out(f: EmaFilter, input: i64, alpha: i64) -> int {
    if f.spec_initialized() {
        ema_step(f.spec_previous() as int, input as int, alpha as int)
    } else {
        input as int
    }
}

impl EmaFilter {
    /// The smoothed value the filter last emitted.
    pub closed spec fn spec_previous(&self) -> i64 {
        self.previous
    }

    /// Whether the filter has been seeded by a first sample.
    pub closed spec fn spec_initialized(&self) -> bool {
        self.initialized
    }

    /// The stored value stays a valid sample.
    pub open spec fn wf(&self) -> bool {
        0 <= self.spec_previous() <= VALUE_LIMIT
    }

    /// Create a new EMA filter with uninitialized state.
    pub fn new() -> (r: Self)
        ensures
            !r.spec_initialized(),
            r.spec_previous() == 0,
            r.wf(),
    {
        EmaFilter { previous: 0, initialized: false }
    }

    /// Apply one EMA step. The first call after construction or reset returns
    /// the input unchanged and seeds the filter.
    pub fn apply(&mut self, input: i64, alpha: i64) -> (r: i64)
        requires
            old(self).wf(),
            0 <= input <= VALUE_LIMIT,
            0 < alpha <= SCALE,
        ensures
            r == ema_out(*old(self), input, alpha),
            final(self).spec_initialized(),
            final(self).spec_previous() == r,
            final(self).wf(),
            0 <= r <= VALUE_LIMIT,
    {
        if !self.initialized {
            self.previous = input;
            self.initialized = true;
            return input;
        }
        proof {
            let s: int = SCALE as int;
            let m: int = if input >= self.previous {
                input as int
            } else {
                self.previous as int
            };
            assert(alpha * input <= SCALE * VALUE_LIMIT && alpha * input >= 0) by (nonlinear_arith)
                requires
                    0 <= input <= VALUE_LIMIT,
                    0 < alpha <= SCALE,
            ;
            assert((SCALE - alpha) * self.previous <= SCALE * VALUE_LIMIT && (SCALE - alpha)
                * self.previous >= 0) by (nonlinear_arith)
                requires
                    0 <= self.previous <= VALUE_LIMIT,
                    0 < alpha <= SCALE,
            ;
            assert(alpha * input + (SCALE - alpha) * self.previous <= s * m) by (nonlinear_arith)
                requires
                    0 < alpha <= SCALE,
                    s == SCALE,
                    input <= m,
                    self.previous <= m,
                    0 <= input,
                    0 <= self.previous,
            ;
            lemma_div_pos_is_pos(alpha * input + (SCALE - alpha) * self.previous, s);
            lemma_div_is_ordered(alpha * input + (SCALE - alpha) * self.previous, s * m, s);
            lemma_div_multiples_vanish(m, s);
        }
        let output: i64 = (alpha * input + (SCALE - alpha) * self.previous) / SCALE;
        self.previous = output;
        output
    }

    /// Reset the filter to its unseeded state.
    pub fn reset(&mut self)
        ensures
            !final(self).spec_initialized(),
            final(self).spec_previous() == 0,
            final(self).wf(),
    {
        self.initialized = false;
        self.previous = 0;
    }
}

impl Default for EmaFilter {
    fn default() -> (r: Self)
        ensures
            !r.spec_initialized(),
            r.spec_previous() == 0,
            r.wf(),
    {
        EmaFilter::new()
    }
}

/// The EMA step, written as the old value plus the scaled gap toward the
/// input: approaching from below adds `alpha * gap / SCALE`; approaching from
/// above lands at `input + (SCALE - alpha) * gap / SCALE`.
proof fn lemma_ema_step_split(previous: int, input: int, alpha: int)
    requires
        0 <= previous,
        0 <= input,
        1 <= alpha <= SCALE,
    ensures
        previous <= input ==> ema_step(previous, input, alpha) == previous + alpha * (input
            - previous) / (SCALE as int),
        previous > input ==> ema_step(previous, input, alpha) == input + (SCALE - alpha) * (previous
            - input) / (SCALE as int),
{
    let s: int = SCALE as int;
    if previous <= input {
        let g: int = input - previous;
        let q: int = alpha * g / s;
        lemma_fundamental_div_mod(alpha * g, s);
        lemma_mod_division_less_than_divisor(alpha * g, s);
        assert(alpha * input + (SCALE - alpha) * previous == (previous + q) * s + (alpha * g)
            % s) by (nonlinear_arith)
            requires
                s == SCALE,
                g == input - previous,
                alpha * g == s * q + (alpha * g) % s,
        ;
        lemma_fundamental_div_mod_converse_div(
            alpha * input + (SCALE - alpha) * previous,
            s,
            previous + q,
            (alpha * g) % s,
        );
    } else {
        let h: int = previous - input;
        let q: int = (s - alpha) * h / s;
        lemma_fundamental_div_mod((s - alpha) * h, s);
        lemma_mod_division_less_than_divisor((s - alpha) * h, s);
        assert(alpha * input + (SCALE - alpha) * previous == (input + q) * s + ((s - alpha) * h)
            % s) by (nonlinear_arith)
            requires
                s == SCALE,
                h == previous - input,
                (s - alpha) * h == s * q + ((s - alpha) * h) % s,
        ;
        lemma_fundamental_div_mod_converse_div(
            alpha * input + (SCALE - alpha) * previous,
            s,
            input + q,
            ((s - alpha) * h) % s,
        );
    }
}

/// One EMA step on a constant input never overshoots: the new value lies
/// between the old value and the input, so the distance to the input never
/// grows; and while the gap is at least `SCALE / alpha` the distance strictly
/// shrinks.
pub proof fn lemma_ema_step_approaches(previous: int, input: int, alpha: int)
    requires
        0 <= previous,
        0 <= input,
        1 <= alpha <= SCALE,
    ensures
        previous <= input ==> previous <= ema_step(previous, input, alpha) <= input,
        previous > input ==> input <= ema_step(previous, input, alpha) <= previous,
        dist(input, ema_step(previous, input, alpha)) <= dist(input, previous),
        alpha * dist(input, previous) >= SCALE ==> dist(input, ema_step(previous, input, alpha))
            < dist(input, previous),
{
    let s: int = SCALE as int;
    lemma_ema_step_split(previous, input, alpha);
    if previous <= input {
        let g: int = input - previous;
        let q: int = alpha * g / s;
        assert(0 <= alpha * g && alpha * g <= s * g) by (nonlinear_arith)
            requires
                0 <= g,
                1 <= alpha <= s,
        ;
        lemma_div_pos_is_pos(alpha * g, s);
        lemma_div_is_ordered(alpha * g, s * g, s);
        lemma_div_multiples_vanish(g, s);
        assert(0 <= q <= g);
        if alpha * g >= s {
            assert(s == s * 1) by (nonlinear_arith);
            lemma_div_is_ordered(s * 1, alpha * g, s);
            lemma_div_multiples_vanish(1, s);
            assert(q >= 1);
        }
    } else {
        let h: int = previous - input;
        let q: int = (s - alpha) * h / s;
        assert(0 <= (s - alpha) * h && (s - alpha) * h <= s * h) by (nonlinear_arith)
            requires
                0 <= h,
                1 <= alpha <= s,
        ;
        lemma_div_pos_is_pos((s - alpha) * h, s);
        lemma_div_is_ordered((s - alpha) * h, s * h, s);
        lemma_div_multiples_vanish(h, s);
        assert(0 <= q <= h);
        if alpha * h >= s {
            assert((s - alpha) * h <= s * (h - 1)) by (nonlinear_arith)
                requires
                    alpha * h >= s,
            ;
            lemma_div_is_ordered((s - alpha) * h, s * (h - 1), s);
            lemma_div_multiples_vanish(h - 1, s);
            assert(q <= h - 1);
        }
    }
}

/// Repeated EMA steps on a constant input stay between the starting value and
/// the input.
proof fn lemma_ema_iter_between(previous: int, input: int, alpha: int, k: nat)
    requires
        0 <= previous,
        0 <= input,
        1 <= alpha <= SCALE,
    ensures
        previous <= input ==> previous <= ema_iter(previous, input, alpha, k) <= input,
        previous > input ==> input <= ema_iter(previous, input, alpha, k) <= previous,
    decreases k,
{
    if k > 0 {
        lemma_ema_iter_between(previous, input, alpha, (k - 1) as nat);
        lemma_ema_step_approaches(ema_iter(previous, input, alpha, (k - 1) as nat), input, alpha);
    }
}

/// Feeding a constant input converges: the distance to the input never grows,
/// and for any tolerance `eps` coarse enough for the weight (`alpha * eps >=
/// SCALE`), the output is within `eps` of the input once the number of steps
/// reaches the starting distance.
pub proof fn lemma_ema_constant_input_converges(
    previous: int,
    input: int,
    alpha: int,
    eps: int,
    k: nat,
)
    requires
        0 <= previous,
        0 <= input,
        1 <= alpha <= SCALE,
        0 <= eps,
        alpha * eps >= SCALE,
    ensures
        dist(input, ema_iter(previous, input, alpha, k)) <= dist(input, previous),
        dist(input, ema_iter(previous, input, alpha, k)) <= dist(input, previous) - k || dist(
            input,
            ema_iter(previous, input, alpha, k),
        ) <= eps,
        k >= dist(input, previous) ==> dist(input, ema_iter(previous, input, alpha, k)) <= eps,
    decreases k,
{
    if k > 0 {
        let prev_it: int = ema_iter(previous, input, alpha, (k - 1) as nat);
        lemma_ema_constant_input_converges(previous, input, alpha, eps, (k - 1) as nat);
        lemma_ema_iter_between(previous, input, alpha, (k - 1) as nat);
        lemma_ema_step_approaches(prev_it, input, alpha);
        if dist(input, prev_it) > eps {
            assert(alpha * dist(input, prev_it) >= alpha * (eps + 1)) by (nonlinear_arith)
                requires
                    1 <= alpha,
                    dist(input, prev_it) >= eps + 1,
            ;
            assert(alpha * (eps + 1) >= SCALE) by (nonlinear_arith)
                requires
                    1 <= alpha,
                    alpha * eps >= SCALE,
            ;
        }
    }
}

/// One step from two starting points on the same side of the input: the run
/// that starts no farther away and mixes with the larger weight ends up no
/// farther away.
proof fn lemma_ema_step_compare(
    p_hi: int,
    p_lo: int,
    input: int,
    alpha_hi: int,
    alpha_lo: int,
)
    requires
        0 <= p_hi,
        0 <= p_lo,
        0 <= input,
        1 <= alpha_lo <= alpha_hi <= SCALE,
        (p_hi <= input && p_lo <= input) || (p_hi >= input && p_lo >= input),
        dist(input, p_hi) <= dist(input, p_lo),
    ensures
        dist(input, ema_step(p_hi, input, alpha_hi)) <= dist(input, ema_step(p_lo, input, alpha_lo)),
{
    let s: int = SCALE as int;
    lemma_ema_step_split(p_hi, input, alpha_hi);
    lemma_ema_step_split(p_lo, input, alpha_lo);
    lemma_ema_step_approaches(p_hi, input, alpha_hi);
    lemma_ema_step_approaches(p_lo, input, alpha_lo);
    if p_hi <= input && p_lo <= input {
        let g_hi: int = input - p_hi;
        let g_lo: int = input - p_lo;
        // with the same weight, a smaller gap leaves a smaller remainder
        assert(alpha_lo * g_lo <= alpha_lo * g_hi + s * (g_lo - g_hi)) by (nonlinear_arith)
            requires
                g_hi <= g_lo,
                1 <= alpha_lo <= s,
        ;
        lemma_div_is_ordered(alpha_lo * g_lo, alpha_lo * g_hi + s * (g_lo - g_hi), s);
        lemma_hoist_over_denominator(alpha_lo * g_hi, g_lo - g_hi, s as nat);
        assert(alpha_lo * g_lo / s <= alpha_lo * g_hi / s + (g_lo - g_hi));
        // and the larger weight removes at least as much of the same gap
        assert(alpha_lo * g_hi <= alpha_hi * g_hi) by (nonlinear_arith)
            requires
                alpha_lo <= alpha_hi,
                0 <= g_hi,
        ;
        lemma_div_is_ordered(alpha_lo * g_hi, alpha_hi * g_hi, s);
    } else {
        let h_hi: int = p_hi - input;
        let h_lo: int = p_lo - input;
        assert((s - alpha_hi) * h_hi <= (s - alpha_lo) * h_lo) by (nonlinear_arith)
            requires
                0 <= h_hi <= h_lo,
                1 <= alpha_lo <= alpha_hi <= s,
        ;
        lemma_div_is_ordered((s - alpha_hi) * h_hi, (s - alpha_lo) * h_lo, s);
    }
}

/// A higher weight converges no slower: after any number of steps on the same
/// constant input, the run with the larger `alpha` is at least as close to the
/// input as the run with the smaller one.
pub proof fn lemma_ema_responsiveness(
    previous: int,
    input: int,
    alpha_hi: int,
    alpha_lo: int,
    k: nat,
)
    requires
        0 <= previous,
        0 <= input,
        1 <= alpha_lo <= alpha_hi <= SCALE,
    ensures
        dist(input, ema_iter(previous, input, alpha_hi, k)) <= dist(
            input,
            ema_iter(previous, input, alpha_lo, k),
        ),
    decreases k,
{
    if k > 0 {
        lemma_ema_responsiveness(previous, input, alpha_hi, alpha_lo, (k - 1) as nat);
        lemma_ema_iter_between(previous, input, alpha_hi, (k - 1) as nat);
        lemma_ema_iter_between(previous, input, alpha_lo, (k - 1) as nat);
        lemma_ema_step_compare(
            ema_iter(previous, input, alpha_hi, (k - 1) as nat),
            ema_iter(previous, input, alpha_lo, (k - 1) as nat),
            input,
            alpha_hi,
            alpha_lo,
        );
    }
}

} // verus!
