//! The path walker: a repeating timer and the cubic Bezier segment it
//! regenerates.
//!
//! Each time the timer completes a period the walker samples a new target
//! point inside a bounds rectangle, perturbs it by a random offset, and
//! replaces its segment with one that starts exactly where the old segment
//! ends (with a continuation control point extrapolated past the end as a
//! tangent hint) and eases into the perturbed target, whose control point is
//! doubled so the curve arrives with zero exit velocity. Every frame the
//! walker is evaluated at the timer's fractional progress for a render
//! position and a companion hue.

use crate::bezier::{
    clamp_to_coord, eval_at, extrapolate_clamped, lemma_eval_at_one, zero_segment, CubicSegment,
};
use crate::geometry::{point_in_rect, point_sum, point_within, Point, Rect};
use crate::hue::{hue_at, hue_spec};
use crate::rng::sample_range;
use crate::timer::RepeatingTimer;
use crate::{COORD_LIMIT, PERIOD_LIMIT};
use vstd::prelude::*;

verus! {

/// The walker: one active curve segment, and the timer whose fractional
/// progress drives both rendering and regeneration.
#[derive(Clone, Copy, Debug, PartialEq, Eq, Structural)]
pub struct PathWalker {
    pub timer: RepeatingTimer,
    pub curve: CubicSegment,
    pub offset_limit: i64,
}

/// The segment that replaces `c` when the timer fires and the perturbed
/// target point is `target`: it starts at `c`'s endpoint, takes the clamped
/// extrapolation of `c` past its end as its tangent-hint control point, and
/// doubles `target` as the two remaining control points.
pub open spec fn next_segment(c: CubicSegment, target: Point) -> CubicSegment {
    CubicSegment {
        p0: c.p3,
        p1: Point { x: clamp_to_coord(c.eval_x(13, 10)), y: clamp_to_coord(c.eval_y(13, 10)) },
        p2: target,
        p3: target,
    }
}

/// Whether every point of `bounds`, perturbed by up to `offset_limit` on
/// each axis, still lies within the coordinate range.
pub open spec fn sample_space_ok(bounds: Rect, offset_limit: i64) -> bool {
    &&& bounds.min.x - offset_limit >= -COORD_LIMIT
    &&& bounds.min.y - offset_limit >= -COORD_LIMIT
    &&& bounds.max.x + offset_limit <= COORD_LIMIT
    &&& bounds.max.y + offset_limit <= COORD_LIMIT
}

/// One advance of a walker by `dt` ticks with the random draws `end` and
/// `offset`: the timer wraps modulo its period, and the curve is replaced by
/// exactly one new segment when the advance crossed a period boundary. The
/// walker's evolution is this function of its state and inputs alone.
pub open spec fn step_spec(w: PathWalker, dt: u64, end: Point, offset: Point) -> PathWalker {
    let timer = RepeatingTimer {
        elapsed: ((w.timer.elapsed + dt) % (w.timer.period as int)) as u64,
        period: w.timer.period,
    };
    if w.timer.elapsed + dt >= w.timer.period {
        PathWalker {
            timer,
            curve: next_segment(w.curve, point_sum(end, offset)),
            offset_limit: w.offset_limit,
        }
    } else {
        PathWalker { timer, curve: w.curve, offset_limit: w.offset_limit }
    }
}

/// A walker advanced through a whole sequence of inputs, each a frame time
/// and the two random draws of that frame.
pub open spec fn run_steps(w: PathWalker, inputs: Seq<(u64, Point, Point)>) -> PathWalker
    decreases inputs.len(),
{
    if inputs.len() == 0 {
        w
    } else {
        run_steps(
            step_spec(w, inputs[0].0, inputs[0].1, inputs[0].2),
            inputs.subrange(1, inputs.len() as int),
        )
    }
}

/// The curve after `n` regenerations with the given perturbed targets,
/// starting from `init`.
pub open spec fn segment_after(init: CubicSegment, targets: Seq<Point>, n: int) -> CubicSegment
    decreases n,
{
    if n <= 0 {
        init
    } else {
        next_segment(segment_after(init, targets, n - 1), targets[n - 1])
    }
}

/// Continuity: across any sequence of regenerations, each new segment begins
/// exactly at the previous segment's evaluation at progress one (its
/// endpoint), for every regeneration in the sequence.
pub proof fn lemma_continuity(init: CubicSegment, targets: Seq<Point>, n: int, p: int)
    requires
        0 <= n < targets.len(),
        0 < p,
    ensures
        segment_after(init, targets, n + 1).p0.x == segment_after(init, targets, n).eval_x(p, p),
        segment_after(init, targets, n + 1).p0.y == segment_after(init, targets, n).eval_y(p, p),
{
    let s = segment_after(init, targets, n);
    lemma_eval_at_one(s, p);
    assert(segment_after(init, targets, n + 1) == next_segment(s, targets[n]));
}

/// Determinism: a walker's evolution is a function of its starting state and
/// its input sequence alone, so two walkers fed the same frame times and the
/// same random draws stay identical.
pub proof fn lemma_determinism(w1: PathWalker, w2: PathWalker, inputs: Seq<(u64, Point, Point)>)
    requires
        w1 == w2,
    ensures
        run_steps(w1, inputs) == run_steps(w2, inputs),
{
}

impl PathWalker {
    /// A walker is well formed when its timer is, its curve's control points
    /// lie within the coordinate range, and its offset limit is nonnegative
    /// and in range.
    pub open spec fn wf(self) -> bool {
        &&& self.timer.wf()
        &&& self.curve.bounded()
        &&& 0 <= self.offset_limit <= COORD_LIMIT
    }

    /// A fresh walker: a timer at the start of its first period and the
    /// degenerate all-zero curve, so the first regeneration establishes the
    /// first real segment and until then the walker evaluates to the origin.
    pub fn new(period: u64, offset_limit: i64) -> (w: PathWalker)
        requires
            0 < period <= PERIOD_LIMIT,
            0 <= offset_limit <= COORD_LIMIT,
        ensures
            w.wf(),
            w.timer.period == period,
            w.timer.elapsed == 0,
            w.curve == zero_segment(),
            w.offset_limit == offset_limit,
    {
        PathWalker {
            timer: RepeatingTimer::new(period),
            curve: CubicSegment::zero(),
            offset_limit,
        }
    }

    /// Replaces the curve with the next segment for the drawn target `end`
    /// perturbed by `offset`; the timer is untouched. The new segment starts
    /// at the old segment's endpoint and eases into the perturbed target.
    pub fn regenerate_with(&mut self, end: Point, offset: Point)
        requires
            old(self).wf(),
            -COORD_LIMIT <= end.x + offset.x <= COORD_LIMIT,
            -COORD_LIMIT <= end.y + offset.y <= COORD_LIMIT,
        ensures
            final(self).wf(),
            final(self).timer == old(self).timer,
            final(self).offset_limit == old(self).offset_limit,
            final(self).curve == next_segment(old(self).curve, point_sum(end, offset)),
            final(self).curve.p0 == old(self).curve.p3,
            final(self).curve.p2 == final(self).curve.p3,
            final(self).curve.p3.x == end.x + offset.x,
            final(self).curve.p3.y == end.y + offset.y,
    {
        let tx: i64 = end.x + offset.x;
        let ty: i64 = end.y + offset.y;
        let target = Point { x: tx, y: ty };
        let continued: Point = extrapolate_clamped(&self.curve);
        let start: Point = self.curve.p3;
        self.curve = CubicSegment { p0: start, p1: continued, p2: target, p3: target };
    }

    /// Advances the timer by `dt` and, when the advance completed a period,
    /// replaces the curve with exactly one new segment built from the given
    /// draws: the whole per-frame step as a function of its inputs alone.
    pub fn tick_and_maybe_regenerate_with(&mut self, dt: u64, end: Point, offset: Point) -> (fired:
        bool)
        requires
            old(self).wf(),
            -COORD_LIMIT <= end.x + offset.x <= COORD_LIMIT,
            -COORD_LIMIT <= end.y + offset.y <= COORD_LIMIT,
        ensures
            final(self).wf(),
            fired == (old(self).timer.elapsed + dt >= old(self).timer.period),
            *final(self) == step_spec(*old(self), dt, end, offset),
            !fired ==> final(self).curve == old(self).curve,
            fired ==> final(self).curve == next_segment(old(self).curve, point_sum(end, offset)),
    {
        let fired = self.timer.tick(dt);
        if fired {
            self.regenerate_with(end, offset);
        }
        fired
    }

    /// Advances the timer by `dt` and, when the advance completed a period,
    /// replaces the curve with exactly one new segment whose target is drawn
    /// uniformly from `bounds` and perturbed by an offset drawn uniformly
    /// from `[-offset_limit, offset_limit]` on each axis.
    pub fn tick_and_maybe_regenerate(
        &mut self,
        dt: u64,
        bounds: &Rect,
        rng: &mut rand::rngs::StdRng,
    ) -> (fired: bool)
        requires
            old(self).wf(),
            bounds.valid(),
            sample_space_ok(*bounds, old(self).offset_limit),
        ensures
            final(self).wf(),
            final(self).offset_limit == old(self).offset_limit,
            final(self).timer.period == old(self).timer.period,
            final(self).timer.elapsed == (old(self).timer.elapsed + dt) % (
            old(self).timer.period as int),
            fired == (old(self).timer.elapsed + dt >= old(self).timer.period),
            !fired ==> final(self).curve == old(self).curve,
            fired ==> exists|end: Point, offset: Point|
                {
                    &&& point_in_rect(end, *bounds)
                    &&& point_within(offset, old(self).offset_limit)
                    &&& final(self).curve == next_segment(
                        old(self).curve,
                        #[trigger] point_sum(end, offset),
                    )
                },
    {
        let fired = self.timer.tick(dt);
        if fired {
            let ex: i64 = sample_range(rng, bounds.min.x, bounds.max.x);
            let ey: i64 = sample_range(rng, bounds.min.y, bounds.max.y);
            let lim: i64 = self.offset_limit;
            let ox: i64 = sample_range(rng, -lim, lim + 1);
            let oy: i64 = sample_range(rng, -lim, lim + 1);
            let end = Point { x: ex, y: ey };
            let offset = Point { x: ox, y: oy };
            self.regenerate_with(end, offset);
            proof {
                assert(point_in_rect(end, *bounds));
                assert(point_within(offset, old(self).offset_limit));
                assert(self.curve == next_segment(old(self).curve, point_sum(end, offset)));
            }
        }
        fired
    }

    /// The render sample at the current fractional progress of the timer:
    /// the curve evaluated at elapsed over period — always an interior
    /// progress, never an extrapolation — and the companion hue.
    pub fn evaluate_for_render(&self) -> (r: (Point, u16))
        requires
            self.wf(),
        ensures
            0 <= self.timer.elapsed < self.timer.period,
            r.0.x == self.curve.eval_x(self.timer.elapsed as int, self.timer.period as int),
            r.0.y == self.curve.eval_y(self.timer.elapsed as int, self.timer.period as int),
            point_within(r.0, COORD_LIMIT),
            r.1 == hue_spec(self.timer.elapsed as int, self.timer.period as int),
            180 <= r.1 <= 260,
    {
        let pos: Point = eval_at(&self.curve, self.timer.elapsed, self.timer.period);
        let h: u16 = hue_at(self.timer.elapsed, self.timer.period);
        (pos, h)
    }
}

/// Executable mirror of `sample_space_ok`, for callers that must test the
/// sampling space before handing a bounds rectangle to the walker.
pub fn sample_space_fits(bounds: &Rect, offset_limit: i64) -> (r: bool)
    requires
        0 <= offset_limit,
    ensures
        r == sample_space_ok(*bounds, offset_limit),
{
    let ol: i128 = offset_limit as i128;
    let cl: i128 = COORD_LIMIT as i128;
    (bounds.min.x as i128 - ol >= -cl) && (bounds.min.y as i128 - ol >= -cl) && (
    bounds.max.x as i128 + ol <= cl) && (bounds.max.y as i128 + ol <= cl)
}

} // verus!
