//! Fixed-point groundwork: the shared scale, truncating division, and the
//! bounds within which the engine's arithmetic is proved not to overflow.

use vstd::prelude::*;
use vstd::arithmetic::div_mod::{
    lemma_div_by_multiple, lemma_div_is_ordered, lemma_div_pos_is_pos, lemma_multiply_divide_le,
};

verus! {

/// Every amplitude, coefficient and trigonometric value carries sixteen
/// fractional bits: `SCALE` stands for the real value 1.0.
pub const SCALE: i64 = 65536;

/// Largest magnitude accepted for a sample or produced for a coefficient
/// (the real value 65536.0): generous headroom over the unit-range samples
/// a loader yields, while keeping every window sum inside `i128`.
pub const AMPLITUDE_LIMIT: i64 = 0x1_0000_0000;

/// Largest magnitude accepted for a synthesis amplitude multiplier
/// (the real value 65536.0).
pub const MULTIPLIER_LIMIT: i64 = 0x1_0000_0000;

/// Truncating division, the meaning of `/` on the machine's signed
/// integers: the quotient is rounded towards zero.
pub open spec fn tdiv(a: int, b: int) -> int {
    if a >= 0 {
        a / b
    } else {
        -((-a) / b)
    }
}

/// Truncating division of a wide accumulator by a positive divisor.
pub fn div_trunc(a: i128, b: i128) -> (q: i64)
    requires
        0 < b,
        -(b * 0x7fff_ffff_ffff_ffff) <= a <= b * 0x7fff_ffff_ffff_ffff,
        -0x4000_0000_0000_0000_0000_0000_0000_0000 < a,
    ensures
        q == tdiv(a as int, b as int),
{
    if a >= 0 {
        let qu: u128 = (a as u128) / (b as u128);
        proof {
            lemma_multiply_divide_le(a as int, b as int, 0x7fff_ffff_ffff_ffff);
            lemma_div_pos_is_pos(a as int, b as int);
        }
        qu as i64
    } else {
        let neg: i128 = -a;
        let qu: u128 = (neg as u128) / (b as u128);
        proof {
            lemma_multiply_divide_le(neg as int, b as int, 0x7fff_ffff_ffff_ffff);
            lemma_div_pos_is_pos(neg as int, b as int);
        }
        -(qu as i64)
    }
}

/// A quotient is no larger in magnitude than the bound the numerator is a
/// multiple-bounded by: `|a| <= m * b` gives `|a / b| <= m`.
pub proof fn lemma_tdiv_bound(a: int, b: int, m: int)
    requires
        0 < b,
        0 <= m,
        -(m * b) <= a <= m * b,
    ensures
        -m <= tdiv(a, b) <= m,
{
    if a >= 0 {
        lemma_div_pos_is_pos(a, b);
        lemma_div_is_ordered(a, m * b, b);
        lemma_div_by_multiple(m, b);
    } else {
        lemma_div_pos_is_pos(-a, b);
        lemma_div_is_ordered(-a, m * b, b);
        lemma_div_by_multiple(m, b);
    }
}

/// Dividing an exact multiple truncates nothing: `(x * b) / b == x`.
pub proof fn lemma_tdiv_exact(x: int, b: int)
    requires
        0 < b,
    ensures
        tdiv(x * b, b) == x,
{
    if x >= 0 {
        lemma_div_by_multiple(x, b);
    } else {
        lemma_div_by_multiple(-x, b);
        assert(-(x * b) == (-x) * b) by (nonlinear_arith);
    }
}

} // verus!
