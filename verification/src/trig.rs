//! Fixed-point trigonometry over exact phases.
//!
//! A phase is an exact fraction `num / den` of one full turn, so phase
//! accumulation across a window never rounds: the engine adds the per-sample
//! step to the numerator and reduces modulo the denominator. The cosine of a
//! phase is taken from a quarter-wave even polynomial (the truncated Taylor
//! series of `cos` at the origin, with coefficients rounded to sixteen
//! fractional bits), extended to the full turn by the quarter symmetries of
//! the cosine; the sine is the cosine a quarter turn behind.

use vstd::prelude::*;
use vstd::arithmetic::div_mod::{
    lemma_div_by_multiple, lemma_div_is_ordered, lemma_div_pos_is_pos, lemma_mod_bound,
    lemma_multiply_divide_lt,
};
use vstd::arithmetic::mul::{
    lemma_mul_inequality, lemma_mul_nonnegative, lemma_mul_strict_inequality,
};
use crate::fixed::SCALE;

verus! {

/// Quarter-wave polynomial coefficients: the Taylor coefficients of
/// `cos(pi/2 * u)` at `u == 0` for `u^2`, `u^4`, `u^6` and `u^8`, each
/// rounded to sixteen fractional bits.
pub const COS_C2: u64 = 80852;

pub const COS_C4: u64 = 16624;

pub const COS_C6: u64 = 1367;

pub const COS_C8: u64 = 60;

/// The quarter-wave polynomial: for `r` in `[0, SCALE]` standing for
/// `u == r / SCALE` in `[0, 1]`, approximates `cos(pi/2 * u) * SCALE`.
pub open spec fn poly_quarter(r: int) -> int {
    let u2 = (r * r) / (SCALE as int);
    let t1 = (COS_C8 * u2) / (SCALE as int);
    let t2 = ((COS_C6 - t1) * u2) / (SCALE as int);
    let t3 = ((COS_C4 - t2) * u2) / (SCALE as int);
    let t4 = ((COS_C2 - t3) * u2) / (SCALE as int);
    SCALE - t4
}

/// The cosine of the phase `num / den` of a full turn, in units of `SCALE`:
/// the quarter-wave polynomial reflected into the right quadrant.
pub open spec fn cos_fixed(num: int, den: int) -> int {
    let t4 = num * 4;
    let quadrant = t4 / den;
    let r = ((t4 % den) * (SCALE as int)) / den;
    if quadrant == 0 {
        poly_quarter(r)
    } else if quadrant == 1 {
        -poly_quarter(SCALE - r)
    } else if quadrant == 2 {
        -poly_quarter(r)
    } else {
        poly_quarter(SCALE - r)
    }
}

/// The sine of the phase `num / den` of a full turn, in units of `SCALE`:
/// the cosine a quarter turn behind.
pub open spec fn sin_fixed(num: int, den: int) -> int {
    cos_fixed((4 * num + 3 * den) % (4 * den), 4 * den)
}

/// A product bounded by one scale-sized factor keeps its bound through the
/// scaling division: `0 <= x <= SCALE` gives `0 <= (c * x) / SCALE <= c`.
proof fn lemma_scaled_product_bound(c: int, x: int)
    requires
        0 <= c,
        0 <= x <= SCALE,
    ensures
        0 <= (c * x) / (SCALE as int) <= c,
{
    lemma_mul_nonnegative(c, x);
    lemma_div_pos_is_pos(c * x, SCALE as int);
    lemma_mul_inequality(x, SCALE as int, c);
    lemma_div_is_ordered(c * x, (SCALE as int) * c, SCALE as int);
    lemma_div_by_multiple(c, SCALE as int);
}

/// The quarter-wave polynomial stays within one unit of scale.
pub proof fn lemma_poly_quarter_bounds(r: int)
    requires
        0 <= r <= SCALE,
    ensures
        -SCALE <= poly_quarter(r) <= SCALE,
{
    let s = SCALE as int;
    let u2 = (r * r) / s;
    assert(r * r <= s * s) by (nonlinear_arith)
        requires
            0 <= r <= s,
    ;
    lemma_mul_nonnegative(r, r);
    lemma_div_pos_is_pos(r * r, s);
    lemma_div_is_ordered(r * r, s * s, s);
    lemma_div_by_multiple(s, s);
    assert(0 <= u2 <= s);
    lemma_scaled_product_bound(COS_C8 as int, u2);
    let t1 = (COS_C8 * u2) / s;
    lemma_scaled_product_bound(COS_C6 - t1, u2);
    let t2 = ((COS_C6 - t1) * u2) / s;
    lemma_scaled_product_bound(COS_C4 - t2, u2);
    let t3 = ((COS_C4 - t2) * u2) / s;
    lemma_scaled_product_bound(COS_C2 - t3, u2);
}

/// The reduced quadrant offset lies inside the quarter: for `0 <= num < den`,
/// the offset `((num * 4) % den) * SCALE / den` lies in `[0, SCALE)`.
proof fn lemma_quadrant_offset_range(num: int, den: int)
    requires
        0 < den,
        0 <= num,
    ensures
        0 <= ((num * 4) % den) * (SCALE as int) / den < SCALE,
{
    let s = SCALE as int;
    let rem = (num * 4) % den;
    lemma_mod_bound(num * 4, den);
    lemma_mul_nonnegative(rem, s);
    lemma_div_pos_is_pos(rem * s, den);
    lemma_mul_strict_inequality(rem, den, s);
    lemma_multiply_divide_lt(rem * s, den, s);
}

/// The fixed-point cosine stays within one unit of scale.
pub proof fn lemma_cos_fixed_bounds(num: int, den: int)
    requires
        0 < den,
        0 <= num < den,
    ensures
        -SCALE <= cos_fixed(num, den) <= SCALE,
{
    let r = (((num * 4) % den) * (SCALE as int)) / den;
    lemma_quadrant_offset_range(num, den);
    lemma_poly_quarter_bounds(r);
    lemma_poly_quarter_bounds(SCALE - r);
}

/// The fixed-point sine stays within one unit of scale.
pub proof fn lemma_sin_fixed_bounds(num: int, den: int)
    requires
        0 < den,
        0 <= num < den,
    ensures
        -SCALE <= sin_fixed(num, den) <= SCALE,
{
    lemma_mod_bound(4 * num + 3 * den, 4 * den);
    lemma_cos_fixed_bounds((4 * num + 3 * den) % (4 * den), 4 * den);
}

/// The quarter-wave polynomial, evaluated exactly as the specification
/// states it.
fn poly_q(r: u64) -> (p: i64)
    requires
        r <= 65536,
    ensures
        p == poly_quarter(r as int),
        -SCALE <= p <= SCALE,
{
    proof {
        lemma_poly_quarter_bounds(r as int);
    }
    proof {
        let s = SCALE as int;
        assert((r as int) * (r as int) <= s * s) by (nonlinear_arith)
            requires
                0 <= r as int <= s,
        ;
        lemma_div_is_ordered((r as int) * (r as int), s * s, s);
        lemma_div_by_multiple(s, s);
    }
    let u2: u64 = (r * r) / 65536;
    proof {
        lemma_scaled_product_bound(COS_C8 as int, u2 as int);
    }
    let t1: u64 = (COS_C8 * u2) / 65536;
    proof {
        lemma_scaled_product_bound(COS_C6 - t1 as int, u2 as int);
    }
    let t2: u64 = ((COS_C6 - t1) * u2) / 65536;
    proof {
        lemma_scaled_product_bound(COS_C4 - t2 as int, u2 as int);
    }
    let t3: u64 = ((COS_C4 - t2) * u2) / 65536;
    proof {
        lemma_scaled_product_bound(COS_C2 - t3 as int, u2 as int);
    }
    let t4: u64 = ((COS_C2 - t3) * u2) / 65536;
    65536i64 - (t4 as i64)
}

/// The cosine of the exact phase `num / den` of a full turn, in units of
/// `SCALE`, exactly as `cos_fixed` states it.
pub fn cos_fp(num: u64, den: u64) -> (c: i64)
    requires
        0 < den <= 0x10_0000_0000,
        num < den,
    ensures
        c == cos_fixed(num as int, den as int),
        -SCALE <= c <= SCALE,
{
    let t4: u64 = num * 4;
    let quadrant: u64 = t4 / den;
    let rem: u64 = t4 % den;
    proof {
        lemma_multiply_divide_lt(t4 as int, den as int, 4);
        lemma_div_pos_is_pos(t4 as int, den as int);
        lemma_quadrant_offset_range(num as int, den as int);
    }
    let r: u64 = (rem * 65536) / den;
    if quadrant == 0 {
        poly_q(r)
    } else if quadrant == 1 {
        -poly_q(65536 - r)
    } else if quadrant == 2 {
        -poly_q(r)
    } else {
        poly_q(65536 - r)
    }
}

/// The sine of the exact phase `num / den` of a full turn, in units of
/// `SCALE`, exactly as `sin_fixed` states it.
pub fn sin_fp(num: u64, den: u64) -> (s: i64)
    requires
        0 < den <= 0x4_0000_0000,
        num < den,
    ensures
        s == sin_fixed(num as int, den as int),
        -SCALE <= s <= SCALE,
{
    let den4: u64 = 4 * den;
    let arg: u64 = (4 * num + 3 * den) % den4;
    proof {
        lemma_mod_bound((4 * num + 3 * den) as int, den4 as int);
    }
    cos_fp(arg, den4)
}

} // verus!
