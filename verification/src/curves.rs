//! Response curve implementations.
//!
//! Transforms a normalized input (`0..=SCALE` fixed-point units) through
//! different response curves.

use vstd::arithmetic::div_mod::lemma_div_is_ordered;
use vstd::arithmetic::div_mod::lemma_div_multiples_vanish;
use vstd::arithmetic::div_mod::lemma_div_pos_is_pos;
use vstd::arithmetic::div_mod::lemma_fundamental_div_mod;
use vstd::arithmetic::div_mod::lemma_mod_division_less_than_divisor;
use vstd::prelude::*;

use crate::SCALE;

verus! {

/// Width in normalized units of one segment of the audio-taper table
/// (`SCALE / 32`).
pub const CURVE_STEP: i64 = 31_250;

/// Response curve types for potentiometer output.
#[derive(Debug, Clone, Copy, PartialEq, Eq, Structural)]
pub enum ResponseCurve {
    /// Linear response (1:1 mapping).
    Linear,
    /// Logarithmic response (audio taper): the ideal shape is
    /// `(e^(3x) - 1) / (e^3 - 1)`, which compresses the low end of the range.
    /// It is realized as piecewise-linear interpolation over a table of that
    /// shape sampled at 33 evenly spaced points.
    Logarithmic,
}

/// Audio-taper table: entry `i` is `(e^(3 * i / 32) - 1) / (e^3 - 1)` in
/// normalized fixed-point units, so the table runs from `0` to `SCALE`.
pub open spec fn log_tab(i: int) -> int {
    if i <= 0 {
        0
    } else if i == 1 {
        5150
    } else if i == 2 {
        10806
    } else if i == 3 {
        17017
    } else if i == 4 {
        23840
    } else if i == 5 {
        31332
    } else if i == 6 {
        39562
    } else if i == 7 {
        48600
    } else if i == 8 {
        58526
    } else if i == 9 {
        69428
    } else if i == 10 {
        81401
    } else if i == 11 {
        94552
    } else if i == 12 {
        108994
    } else if i == 13 {
        124857
    } else if i == 14 {
        142278
    } else if i == 15 {
        161411
    } else if i == 16 {
        182426
    } else if i == 17 {
        205505
    } else if i == 18 {
        230853
    } else if i == 19 {
        258692
    } else if i == 20 {
        289267
    } else if i == 21 {
        322848
    } else if i == 22 {
        359728
    } else if i == 23 {
        400234
    } else if i == 24 {
        444721
    } else if i == 25 {
        493580
    } else if i == 26 {
        547241
    } else if i == 27 {
        606177
    } else if i == 28 {
        670905
    } else if i == 29 {
        741994
    } else if i == 30 {
        820071
    } else if i == 31 {
        905821
    } else {
        1000000
    }
}

/// Clamp a normalized value into `[0, SCALE]`.
pub open spec fn clamp_unit(x: int) -> int {
    if x < 0 {
        0
    } else if x > SCALE {
        SCALE as int
    } else {
        x
    }
}

/// The audio-taper curve over `[0, SCALE]`: linear interpolation between the
/// two table entries that bracket the (clamped) argument.
pub open spec fn log_curve(x: int) -> int {
    let c = clamp_unit(x);
    let i = c / (CURVE_STEP as int);
    if i >= 32 {
        SCALE as int
    } else {
        log_tab(i) + (log_tab(i + 1) - log_tab(i)) * (c % (CURVE_STEP as int)) / (CURVE_STEP as int)
    }
}

/// What each curve returns for a normalized input.
pub open spec fn curve_of(curve: ResponseCurve, x: int) -> int {
    match curve {
        ResponseCurve::Linear => x,
        ResponseCurve::Logarithmic => log_curve(x),
    }
}

/// The table rises monotonically from `0` to `SCALE`.
proof fn lemma_log_tab_monotone(i: int)
    requires
        0 <= i < 32,
    ensures
        log_tab(i) < log_tab(i + 1),
        0 <= log_tab(i),
        log_tab(i + 1) <= SCALE,
{
}

/// The table rises monotonically between any two indices.
proof fn lemma_log_tab_monotone_range(i: int, j: int)
    requires
        0 <= i <= j <= 32,
    ensures
        log_tab(i) <= log_tab(j),
    decreases j - i,
{
    if i < j {
        lemma_log_tab_monotone(i);
        lemma_log_tab_monotone_range(i + 1, j);
    }
}

/// Within one table segment, the interpolated value lies between the two
/// bracketing entries.
proof fn lemma_log_segment_bounds(i: int, frac: int)
    requires
        0 <= i < 32,
        0 <= frac < CURVE_STEP,
    ensures
        log_tab(i) <= log_tab(i) + (log_tab(i + 1) - log_tab(i)) * frac / (CURVE_STEP as int)
            <= log_tab(i + 1),
{
    let s: int = CURVE_STEP as int;
    let d: int = log_tab(i + 1) - log_tab(i);
    lemma_log_tab_monotone(i);
    assert(0 <= d * frac <= d * s) by (nonlinear_arith)
        requires
            0 <= d,
            0 <= frac <= s,
    ;
    lemma_div_pos_is_pos(d * frac, s);
    lemma_div_is_ordered(d * frac, d * s, s);
    lemma_div_multiples_vanish(d, s);
    assert(d * s == s * d) by (nonlinear_arith);
}

/// The audio-taper curve never decreases: a higher normalized input gives an
/// output at least as high.
pub proof fn lemma_log_curve_monotone(x1: int, x2: int)
    requires
        x1 <= x2,
    ensures
        log_curve(x1) <= log_curve(x2),
{
    let s: int = CURVE_STEP as int;
    let c1 = clamp_unit(x1);
    let c2 = clamp_unit(x2);
    assert(0 <= c1 <= c2 <= SCALE);
    let i1 = c1 / s;
    let i2 = c2 / s;
    lemma_div_pos_is_pos(c1, s);
    lemma_div_is_ordered(c1, c2, s);
    lemma_div_is_ordered(c2, SCALE as int, s);
    assert(0 <= i1 <= i2 <= 32);
    lemma_fundamental_div_mod(c1, s);
    lemma_mod_division_less_than_divisor(c1, s);
    lemma_fundamental_div_mod(c2, s);
    lemma_mod_division_less_than_divisor(c2, s);
    if i1 == i2 {
        if i1 < 32 {
            let d: int = log_tab(i1 + 1) - log_tab(i1);
            lemma_log_tab_monotone(i1);
            assert(c1 % s <= c2 % s);
            assert(d * (c1 % s) <= d * (c2 % s)) by (nonlinear_arith)
                requires
                    0 <= d,
                    c1 % s <= c2 % s,
            ;
            lemma_div_is_ordered(d * (c1 % s), d * (c2 % s), s);
        }
    } else {
        lemma_log_segment_bounds(i1, c1 % s);
        lemma_log_tab_monotone_range(i1 + 1, i2);
        if i2 < 32 {
            lemma_log_segment_bounds(i2, c2 % s);
        } else {
            lemma_log_tab_monotone_range(i1 + 1, 32);
        }
    }
}

impl ResponseCurve {
    /// Apply the response curve to a normalized value.
    ///
    /// A value in `[0, SCALE]` is returned in `[0, SCALE]`; the logarithmic
    /// curve clamps its argument into that range first.
    pub fn apply(&self, normalized: i64) -> (r: i64)
        ensures
            r == curve_of(*self, normalized as int),
            *self is Linear ==> r == normalized,
            *self is Logarithmic ==> 0 <= r <= SCALE,
    {
        match self {
            ResponseCurve::Linear => normalized,
            ResponseCurve::Logarithmic => apply_logarithmic(normalized),
        }
    }
}

/// Table entry lookup for the exec interpolation.
fn log_tab_entry(i: usize) -> (r: i64)
    requires
        i <= 32,
    ensures
        r == log_tab(i as int),
{
    match i {
        0 => 0,
        1 => 5150,
        2 => 10806,
        3 => 17017,
        4 => 23840,
        5 => 31332,
        6 => 39562,
        7 => 48600,
        8 => 58526,
        9 => 69428,
        10 => 81401,
        11 => 94552,
        12 => 108994,
        13 => 124857,
        14 => 142278,
        15 => 161411,
        16 => 182426,
        17 => 205505,
        18 => 230853,
        19 => 258692,
        20 => 289267,
        21 => 322848,
        22 => 359728,
        23 => 400234,
        24 => 444721,
        25 => 493580,
        26 => 547241,
        27 => 606177,
        28 => 670905,
        29 => 741994,
        30 => 820071,
        31 => 905821,
        _ => 1_000_000,
    }
}

/// Apply the audio-taper curve: clamp into `[0, SCALE]`, then interpolate
/// between the bracketing table entries.
fn apply_logarithmic(normalized: i64) -> (r: i64)
    ensures
        r == log_curve(normalized as int),
        0 <= r <= SCALE,
{
    let x: i64 = if normalized < 0 {
        0
    } else if normalized > SCALE {
        SCALE
    } else {
        normalized
    };
    assert(x == clamp_unit(normalized as int));
    let i: i64 = x / CURVE_STEP;
    assert(0 <= i <= 32);
    if i >= 32 {
        return SCALE;
    }
    let lo: i64 = log_tab_entry(i as usize);
    let hi: i64 = log_tab_entry(i as usize + 1);
    proof {
        lemma_log_tab_monotone(i as int);
    }
    let frac: i64 = x % CURVE_STEP;
    assert(0 <= frac < CURVE_STEP);
    let ghost d: int = hi - lo;
    let ghost f: int = frac as int;
    let ghost s: int = CURVE_STEP as int;
    assert(0 <= d * f <= d * s) by (nonlinear_arith)
        requires
            0 <= d,
            0 <= f <= s,
    ;
    assert(d * f / s <= d * s / s && 0 <= d * f / s) by (nonlinear_arith)
        requires
            0 <= d * f <= d * s,
            0 < s,
    ;
    assert(d * s / s == d) by (nonlinear_arith)
        requires
            0 < s,
    ;
    let gain: i64 = (hi - lo) * frac / CURVE_STEP;
    assert(gain == d * f / s);
    lo + gain
}

} // verus!
