//! The companion hue of a render sample.
//!
//! The hue swings from 180 degrees at the start of a period up to 260 at the
//! half and back to 180 at the end, following the sinusoid arch
//! `180 + 80 * sin(pi * t)` at progress `t = e / p`. The arch is computed as
//! the rational approximation `sin(pi * t) ~= 16 u / (5 - 4 u)` with
//! `u = t * (1 - t)`, which is exact at the start, the half and the end of
//! the period, and keeps the whole sweep inside `[180, 260]`.

use crate::PERIOD_LIMIT;
use vstd::arithmetic::div_mod::{
    lemma_div_is_ordered, lemma_div_multiples_vanish, lemma_div_pos_is_pos,
};
use vstd::prelude::*;

verus! {

/// The hue, in degrees, at elapsed ticks `e` of a period of `p` ticks:
/// `180 + (1280 * e * (p - e)) / (5 * p^2 - 4 * e * (p - e))`, the rational
/// sinusoid arch cleared of denominators, rounded down.
pub open spec fn hue_spec(e: int, p: int) -> int {
    180 + (1280 * (e * (p - e))) / (5 * (p * p) - 4 * (e * (p - e)))
}

/// Bounds used by both the evaluation and the range lemma: the numerator is
/// nonnegative and at most `80` times the (positive) denominator.
proof fn lemma_hue_parts(e: int, p: int)
    requires
        0 < p,
        0 <= e <= p,
    ensures
        0 <= e * (p - e),
        4 * (e * (p - e)) <= p * p,
        0 < 5 * (p * p) - 4 * (e * (p - e)),
        1280 * (e * (p - e)) <= 80 * (5 * (p * p) - 4 * (e * (p - e))),
{
    assert(0 <= e * (p - e) && 4 * (e * (p - e)) <= p * p && 0 < p * p) by (nonlinear_arith)
        requires
            0 < p,
            0 <= e <= p,
    ;
}

/// The hue quotient itself: nonnegative and at most `80`.
proof fn lemma_hue_quotient(e: int, p: int)
    requires
        0 < p,
        0 <= e <= p,
    ensures
        0 <= (1280 * (e * (p - e))) / (5 * (p * p) - 4 * (e * (p - e))) <= 80,
{
    lemma_hue_parts(e, p);
    let num = 1280 * (e * (p - e));
    let den = 5 * (p * p) - 4 * (e * (p - e));
    lemma_div_pos_is_pos(num, den);
    lemma_div_is_ordered(num, den * 80, den);
    lemma_div_multiples_vanish(80, den);
}

/// Hue range: over a whole period the hue stays within `[100, 260]` degrees;
/// it is exactly 180 at the start and the end of the period and exactly 260
/// at the half.
pub proof fn lemma_hue_range(e: int, p: int)
    requires
        0 < p,
        0 <= e <= p,
    ensures
        100 <= hue_spec(e, p) <= 260,
        e == 0 ==> hue_spec(e, p) == 180,
        e == p ==> hue_spec(e, p) == 180,
        2 * e == p ==> hue_spec(e, p) == 260,
{
    lemma_hue_quotient(e, p);
    let num = 1280 * (e * (p - e));
    let den = 5 * (p * p) - 4 * (e * (p - e));
    if e == 0 || e == p {
        assert(num == 0) by (nonlinear_arith)
            requires
                e == 0 || e == p,
                num == 1280 * (e * (p - e)),
        ;
        lemma_hue_parts(e, p);
        lemma_div_pos_is_pos(0, den);
        vstd::arithmetic::div_mod::lemma_div_nonincreasing(0, den);
    }
    if 2 * e == p {
        assert(num == den * 80) by (nonlinear_arith)
            requires
                2 * e == p,
                num == 1280 * (e * (p - e)),
                den == 5 * (p * p) - 4 * (e * (p - e)),
        ;
        lemma_hue_parts(e, p);
        lemma_div_multiples_vanish(80, den);
    }
}

/// The hue at elapsed ticks `e` of a period of `p` ticks.
pub fn hue_at(e: u64, p: u64) -> (h: u16)
    requires
        0 < p <= PERIOD_LIMIT,
        e <= p,
    ensures
        h == hue_spec(e as int, p as int),
        180 <= h <= 260,
{
    proof {
        lemma_hue_parts(e as int, p as int);
        lemma_hue_quotient(e as int, p as int);
        assert(0 <= e as int * (p as int - e as int) <= 1_000_000_000_000 && p as int * (
        p as int) <= 1_000_000_000_000) by (nonlinear_arith)
            requires
                0 <= e <= p <= 1_000_000,
        ;
    }
    let u: u64 = e * (p - e);
    let num: u64 = 1280 * u;
    let den: u64 = 5 * (p * p) - 4 * u;
    let q: u64 = num / den;
    (180 + q) as u16
}

} // verus!
