//! Cubic Bezier segments over fixed-point coordinates, evaluated exactly.
//!
//! A segment is evaluated at a rational progress `e / p` (elapsed ticks over
//! the period). The Bernstein-form numerator is computed in `i128` and divided
//! by `p^3` with truncating division, so the evaluation is a pure integer
//! function of the control points and the progress fraction.

use crate::geometry::{point_within, Point};
use crate::{COORD_LIMIT, PERIOD_LIMIT};
use vstd::arithmetic::div_mod::{
    lemma_div_is_ordered, lemma_div_multiples_vanish, lemma_div_nonincreasing,
    lemma_div_pos_is_pos,
};
use vstd::prelude::*;

verus! {

/// Truncating division (rounds toward zero), the rounding of Rust's `/` on
/// signed integers. Meaningful for `d > 0`.
pub open spec fn div_trunc(n: int, d: int) -> int {
    if n >= 0 {
        n / d
    } else {
        -((-n) / d)
    }
}

/// The Bernstein-form numerator of a cubic Bezier coordinate at progress
/// `e / p`: the weights sum to `p^3`, so the curve value is this over `p^3`.
/// Also defined outside `0 <= e <= p`, where it extrapolates the polynomial.
pub open spec fn bez_num(a: int, b: int, c: int, d: int, e: int, p: int) -> int {
    let u = p - e;
    u * u * u * a + 3 * (u * u) * e * b + 3 * u * (e * e) * c + e * e * e * d
}

/// A cubic Bezier coordinate at progress `e / p`, with truncating division.
pub open spec fn eval_coord(a: int, b: int, c: int, d: int, e: int, p: int) -> int {
    div_trunc(bez_num(a, b, c, d, e, p), p * p * p)
}

/// Clamps an evaluation result into the coordinate range.
pub open spec fn clamp_to_coord(v: int) -> i64 {
    if v < -(COORD_LIMIT as int) {
        (-(COORD_LIMIT as int)) as i64
    } else if v > COORD_LIMIT as int {
        COORD_LIMIT
    } else {
        v as i64
    }
}

/// A cubic Bezier segment given by four control points.
#[derive(Clone, Copy, Debug, PartialEq, Eq, Structural)]
pub struct CubicSegment {
    pub p0: Point,
    pub p1: Point,
    pub p2: Point,
    pub p3: Point,
}

/// The degenerate all-zero segment a fresh walker starts with.
pub open spec fn zero_segment() -> CubicSegment {
    CubicSegment {
        p0: Point { x: 0, y: 0 },
        p1: Point { x: 0, y: 0 },
        p2: Point { x: 0, y: 0 },
        p3: Point { x: 0, y: 0 },
    }
}

impl CubicSegment {
    /// All four control points lie within the coordinate range.
    pub open spec fn bounded(self) -> bool {
        &&& point_within(self.p0, COORD_LIMIT)
        &&& point_within(self.p1, COORD_LIMIT)
        &&& point_within(self.p2, COORD_LIMIT)
        &&& point_within(self.p3, COORD_LIMIT)
    }

    /// The x coordinate of the segment at progress `e / p`.
    pub open spec fn eval_x(self, e: int, p: int) -> int {
        eval_coord(self.p0.x as int, self.p1.x as int, self.p2.x as int, self.p3.x as int, e, p)
    }

    /// The y coordinate of the segment at progress `e / p`.
    pub open spec fn eval_y(self, e: int, p: int) -> int {
        eval_coord(self.p0.y as int, self.p1.y as int, self.p2.y as int, self.p3.y as int, e, p)
    }

    /// The degenerate all-zero segment.
    pub fn zero() -> (s: CubicSegment)
        ensures
            s == zero_segment(),
            s.bounded(),
    {
        CubicSegment {
            p0: Point { x: 0, y: 0 },
            p1: Point { x: 0, y: 0 },
            p2: Point { x: 0, y: 0 },
            p3: Point { x: 0, y: 0 },
        }
    }
}

/// A product is bounded by the product of the factors' bounds.
proof fn lemma_mul_bound(x: int, y: int, xb: int, yb: int)
    by (nonlinear_arith)
    requires
        -xb <= x <= xb,
        -yb <= y <= yb,
    ensures
        -(xb * yb) <= x * y <= xb * yb,
{
}

/// Scaling a value in `[-m, m]` by a nonnegative weight stays in `[-(w*m), w*m]`.
proof fn lemma_mul_range(w: int, x: int, m: int)
    by (nonlinear_arith)
    requires
        0 <= w,
        -m <= x <= m,
    ensures
        -(w * m) <= w * x <= w * m,
{
}

/// Cubes of integers in `[1, PERIOD_LIMIT]` stay in range.
proof fn lemma_cube_range(x: int)
    by (nonlinear_arith)
    requires
        1 <= x <= PERIOD_LIMIT,
    ensures
        1 <= x * x <= 1_000_000_000_000,
        1 <= x * x * x <= 1_000_000_000_000_000_000,
{
}

/// The Bernstein weights at `e / p` are nonnegative and sum to `p^3`, so the
/// numerator of a convex combination of values in `[-m, m]` lies in
/// `[-(p^3 * m), p^3 * m]`.
proof fn lemma_bez_num_convex(a: int, b: int, c: int, d: int, e: int, p: int, m: int)
    requires
        0 <= e <= p,
        0 <= m,
        -m <= a <= m,
        -m <= b <= m,
        -m <= c <= m,
        -m <= d <= m,
    ensures
        -(p * p * p * m) <= bez_num(a, b, c, d, e, p) <= p * p * p * m,
{
    let u = p - e;
    let w0 = u * u * u;
    let w1 = 3 * (u * u) * e;
    let w2 = 3 * u * (e * e);
    let w3 = e * e * e;
    assert(0 <= w0 && 0 <= w1 && 0 <= w2 && 0 <= w3) by (nonlinear_arith)
        requires
            0 <= e <= p,
            u == p - e,
            w0 == u * u * u,
            w1 == 3 * (u * u) * e,
            w2 == 3 * u * (e * e),
            w3 == e * e * e,
    ;
    assert(w0 + w1 + w2 + w3 == p * p * p) by (nonlinear_arith)
        requires
            u == p - e,
            w0 == u * u * u,
            w1 == 3 * (u * u) * e,
            w2 == 3 * u * (e * e),
            w3 == e * e * e,
    ;
    lemma_mul_range(w0, a, m);
    lemma_mul_range(w1, b, m);
    lemma_mul_range(w2, c, m);
    lemma_mul_range(w3, d, m);
    assert(w0 * a == u * u * u * a);
    assert(w1 * b == 3 * (u * u) * e * b);
    assert(w2 * c == 3 * u * (e * e) * c);
    assert(w3 * d == e * e * e * d);
    assert((w0 + w1 + w2 + w3) * m == w0 * m + w1 * m + w2 * m + w3 * m) by (nonlinear_arith);
}

/// A quotient of a value bounded by `d * m` is bounded by `m`.
proof fn lemma_div_trunc_bound(n: int, d: int, m: int)
    requires
        0 < d,
        0 <= m,
        -(d * m) <= n <= d * m,
    ensures
        -m <= div_trunc(n, d) <= m,
{
    lemma_div_multiples_vanish(m, d);
    if n >= 0 {
        lemma_div_pos_is_pos(n, d);
        lemma_div_is_ordered(n, d * m, d);
    } else {
        lemma_div_pos_is_pos(-n, d);
        lemma_div_is_ordered(-n, d * m, d);
    }
}

/// Truncating division of a nonnegative multiple recovers the factor.
proof fn lemma_div_trunc_exact(q: int, d: int)
    requires
        0 < d,
    ensures
        div_trunc(d * q, d) == q,
{
    if q >= 0 {
        assert(d * q >= 0) by (nonlinear_arith)
            requires
                0 < d,
                0 <= q,
        ;
        lemma_div_multiples_vanish(q, d);
    } else {
        assert(d * q < 0 && -(d * q) == d * (-q)) by (nonlinear_arith)
            requires
                0 < d,
                q < 0,
        ;
        lemma_div_multiples_vanish(-q, d);
    }
}

/// Evaluating a segment at progress one yields exactly its last control
/// point: the weights collapse to `p^3` on `p3`.
pub proof fn lemma_eval_at_one(s: CubicSegment, p: int)
    requires
        0 < p,
    ensures
        s.eval_x(p, p) == s.p3.x,
        s.eval_y(p, p) == s.p3.y,
{
    let den = p * p * p;
    assert(0 < den) by (nonlinear_arith)
        requires
            0 < p,
            den == p * p * p,
    ;
    assert(bez_num(s.p0.x as int, s.p1.x as int, s.p2.x as int, s.p3.x as int, p, p)
        == den * (s.p3.x as int)) by (nonlinear_arith)
        requires
            den == p * p * p,
    ;
    assert(bez_num(s.p0.y as int, s.p1.y as int, s.p2.y as int, s.p3.y as int, p, p)
        == den * (s.p3.y as int)) by (nonlinear_arith)
        requires
            den == p * p * p,
    ;
    lemma_div_trunc_exact(s.p3.x as int, den);
    lemma_div_trunc_exact(s.p3.y as int, den);
}

/// Evaluating a segment at progress zero yields exactly its first control
/// point: the weights collapse to `p^3` on `p0`.
pub proof fn lemma_eval_at_zero(s: CubicSegment, p: int)
    requires
        0 < p,
    ensures
        s.eval_x(0, p) == s.p0.x,
        s.eval_y(0, p) == s.p0.y,
{
    let den = p * p * p;
    assert(0 < den) by (nonlinear_arith)
        requires
            0 < p,
            den == p * p * p,
    ;
    assert(bez_num(s.p0.x as int, s.p1.x as int, s.p2.x as int, s.p3.x as int, 0, p)
        == den * (s.p0.x as int)) by (nonlinear_arith)
        requires
            den == p * p * p,
    ;
    assert(bez_num(s.p0.y as int, s.p1.y as int, s.p2.y as int, s.p3.y as int, 0, p)
        == den * (s.p0.y as int)) by (nonlinear_arith)
        requires
            den == p * p * p,
    ;
    lemma_div_trunc_exact(s.p0.x as int, den);
    lemma_div_trunc_exact(s.p0.y as int, den);
}

/// Relates an `i128` quotient to `div_trunc` and keeps its bounds usable.
proof fn lemma_i128_div_is_trunc(n: int, d: int)
    requires
        0 < d,
    ensures
        n >= 0 ==> 0 <= n / d <= n,
        n < 0 ==> 0 <= (-n) / d <= -n,
{
    if n >= 0 {
        lemma_div_pos_is_pos(n, d);
        lemma_div_nonincreasing(n, d);
    } else {
        lemma_div_pos_is_pos(-n, d);
        lemma_div_nonincreasing(-n, d);
    }
}

/// One coordinate of a segment evaluated at an interior progress `e / p`.
fn eval_coord_exec(a: i64, b: i64, c: i64, d: i64, e: u64, p: u64) -> (r: i64)
    requires
        0 < p <= PERIOD_LIMIT,
        e <= p,
        -COORD_LIMIT <= a <= COORD_LIMIT,
        -COORD_LIMIT <= b <= COORD_LIMIT,
        -COORD_LIMIT <= c <= COORD_LIMIT,
        -COORD_LIMIT <= d <= COORD_LIMIT,
    ensures
        r == eval_coord(a as int, b as int, c as int, d as int, e as int, p as int),
        -COORD_LIMIT <= r <= COORD_LIMIT,
{
    let ai: i128 = a as i128;
    let bi: i128 = b as i128;
    let ci: i128 = c as i128;
    let di: i128 = d as i128;
    let pe: i128 = (p - e) as i128;
    let ei: i128 = e as i128;
    proof {
        lemma_mul_bound(pe as int, pe as int, 1_000_000, 1_000_000);
    }
    let pe2: i128 = pe * pe;
    proof {
        lemma_mul_bound(pe2 as int, pe as int, 1_000_000_000_000, 1_000_000);
    }
    let pe3: i128 = pe2 * pe;
    proof {
        lemma_mul_bound(pe3 as int, ai as int, 1_000_000_000_000_000_000, COORD_LIMIT as int);
    }
    let t0: i128 = pe3 * ai;
    let three_pe2: i128 = 3 * pe2;
    proof {
        lemma_mul_bound(three_pe2 as int, ei as int, 3_000_000_000_000, 1_000_000);
    }
    let t1a: i128 = three_pe2 * ei;
    proof {
        lemma_mul_bound(t1a as int, bi as int, 3_000_000_000_000_000_000, COORD_LIMIT as int);
    }
    let t1: i128 = t1a * bi;
    proof {
        lemma_mul_bound(ei as int, ei as int, 1_000_000, 1_000_000);
    }
    let e2: i128 = ei * ei;
    let three_pe: i128 = 3 * pe;
    proof {
        lemma_mul_bound(three_pe as int, e2 as int, 3_000_000, 1_000_000_000_000);
    }
    let t2a: i128 = three_pe * e2;
    proof {
        lemma_mul_bound(t2a as int, ci as int, 3_000_000_000_000_000_000, COORD_LIMIT as int);
    }
    let t2: i128 = t2a * ci;
    proof {
        lemma_mul_bound(e2 as int, ei as int, 1_000_000_000_000, 1_000_000);
    }
    let e3: i128 = e2 * ei;
    proof {
        lemma_mul_bound(e3 as int, di as int, 1_000_000_000_000_000_000, COORD_LIMIT as int);
    }
    let t3: i128 = e3 * di;
    let num: i128 = t0 + t1 + t2 + t3;
    let pi: i128 = p as i128;
    proof {
        lemma_cube_range(pi as int);
    }
    let den: i128 = pi * pi * pi;
    assert(num as int == bez_num(a as int, b as int, c as int, d as int, e as int, p as int));
    assert(den as int == (p as int) * (p as int) * (p as int));
    proof {
        lemma_i128_div_is_trunc(num as int, den as int);
    }
    let q: i128 = num / den;
    proof {
        assert(q as int == div_trunc(num as int, den as int));
        lemma_bez_num_convex(
            a as int,
            b as int,
            c as int,
            d as int,
            e as int,
            p as int,
            COORD_LIMIT as int,
        );
        lemma_div_trunc_bound(num as int, den as int, COORD_LIMIT as int);
    }
    q as i64
}

/// A segment evaluated at an interior progress `e / p`, the per-frame render
/// position. Stays within the coordinate range: the curve at an interior
/// progress is a convex combination of its control points.
pub fn eval_at(s: &CubicSegment, e: u64, p: u64) -> (r: Point)
    requires
        s.bounded(),
        0 < p <= PERIOD_LIMIT,
        e <= p,
    ensures
        r.x == s.eval_x(e as int, p as int),
        r.y == s.eval_y(e as int, p as int),
        point_within(r, COORD_LIMIT),
{
    let rx: i64 = eval_coord_exec(s.p0.x, s.p1.x, s.p2.x, s.p3.x, e, p);
    let ry: i64 = eval_coord_exec(s.p0.y, s.p1.y, s.p2.y, s.p3.y, e, p);
    Point { x: rx, y: ry }
}

/// One coordinate of the extrapolation at progress `13 / 10`, clamped into
/// the coordinate range.
fn ext_coord(a: i64, b: i64, c: i64, d: i64) -> (r: i64)
    requires
        -COORD_LIMIT <= a <= COORD_LIMIT,
        -COORD_LIMIT <= b <= COORD_LIMIT,
        -COORD_LIMIT <= c <= COORD_LIMIT,
        -COORD_LIMIT <= d <= COORD_LIMIT,
    ensures
        r == clamp_to_coord(eval_coord(a as int, b as int, c as int, d as int, 13, 10)),
        -COORD_LIMIT <= r <= COORD_LIMIT,
{
    let ai: i128 = a as i128;
    let bi: i128 = b as i128;
    let ci: i128 = c as i128;
    let di: i128 = d as i128;
    let num: i128 = -27 * ai + 351 * bi - 1521 * ci + 2197 * di;
    proof {
        let u: int = 10 - 13;
        assert(u * u * u * (a as int) + 3 * (u * u) * 13 * (b as int) + 3 * u * (13 * 13) * (
        c as int) + 13 * 13 * 13 * (d as int) == -27 * (a as int) + 351 * (b as int) - 1521 * (
        c as int) + 2197 * (d as int)) by (nonlinear_arith)
            requires
                u == -3,
        ;
    }
    assert(num as int == bez_num(a as int, b as int, c as int, d as int, 13, 10));
    proof {
        lemma_i128_div_is_trunc(num as int, 1000);
    }
    let q: i128 = num / 1000;
    proof {
        assert(q as int == div_trunc(num as int, 1000));
        lemma_div_trunc_bound(num as int, 1000, 5 * (COORD_LIMIT as int));
    }
    let lim: i128 = COORD_LIMIT as i128;
    if q < -lim {
        -COORD_LIMIT
    } else if q > lim {
        COORD_LIMIT
    } else {
        q as i64
    }
}

/// The extrapolation of a segment past its nominal end, at progress
/// `13 / 10`, clamped into the coordinate range. A cubic Bezier is a
/// polynomial, so evaluation outside `[0, 1]` is well-defined; the result
/// serves as a tangent-continuity hint for the next segment.
pub fn extrapolate_clamped(s: &CubicSegment) -> (r: Point)
    requires
        s.bounded(),
    ensures
        r.x == clamp_to_coord(s.eval_x(13, 10)),
        r.y == clamp_to_coord(s.eval_y(13, 10)),
        point_within(r, COORD_LIMIT),
{
    let rx: i64 = ext_coord(s.p0.x, s.p1.x, s.p2.x, s.p3.x);
    let ry: i64 = ext_coord(s.p0.y, s.p1.y, s.p2.y, s.p3.y);
    Point { x: rx, y: ry }
}

} // verus!
