use pathwalker::bezier::CubicSegment;
use pathwalker::geometry::Point;
use pathwalker::timer::RepeatingTimer;
use pathwalker::walker::{sample_space_fits, PathWalker};
use pathwalker::COORD_LIMIT;
use rand::SeedableRng;

fn pt(x: i64, y: i64) -> Point {
    Point { x, y }
}

#[test]
fn scenario_three_regenerations() {
    // Bounds [0,800]x[0,600], one full period per call, zero offset.
    let mut w = PathWalker::new(1500, 150);
    assert!(w.tick_and_maybe_regenerate_with(1500, pt(100, 100), pt(0, 0)));
    assert_eq!(w.curve.p3, pt(100, 100));
    assert_eq!(w.curve.p0, pt(0, 0));
    assert!(w.tick_and_maybe_regenerate_with(1500, pt(700, 500), pt(0, 0)));
    assert_eq!(w.curve.p0, pt(100, 100));
    assert_eq!(w.curve.p3, pt(700, 500));
    assert!(w.tick_and_maybe_regenerate_with(1500, pt(400, 300), pt(0, 0)));
    assert_eq!(w.curve.p3, pt(400, 300));
}

#[test]
fn render_after_regeneration_returns_fresh_start() {
    // At progress zero right after a regeneration, the render position is
    // the start of the segment that just became active (the point the walker
    // had reached), not the new target.
    let mut w = PathWalker::new(1500, 150);
    assert!(w.tick_and_maybe_regenerate_with(1500, pt(100, 100), pt(0, 0)));
    assert!(w.tick_and_maybe_regenerate_with(1500, pt(700, 500), pt(0, 0)));
    let (pos, hue) = w.evaluate_for_render();
    assert_eq!(pos, pt(100, 100));
    assert_eq!(hue, 180);
}

#[test]
fn one_regeneration_per_call() {
    // A dt of exactly one period triggers exactly one replacement.
    let mut w = PathWalker::new(10, 0);
    assert!(w.tick_and_maybe_regenerate_with(10, pt(5, 6), pt(0, 0)));
    assert_eq!(w.timer.elapsed, 0);
    assert_eq!(w.curve.p3, pt(5, 6));
    assert_eq!(w.curve.p0, pt(0, 0));
    // A dt spanning several periods still replaces the curve only once.
    let mut v = PathWalker::new(10, 0);
    assert!(v.tick_and_maybe_regenerate_with(25, pt(7, 8), pt(0, 0)));
    assert_eq!(v.timer.elapsed, 5);
    assert_eq!(v.curve.p3, pt(7, 8));
    assert_eq!(v.curve.p0, pt(0, 0));
    // No completion, no replacement.
    let before = v.curve;
    assert!(!v.tick_and_maybe_regenerate_with(3, pt(9, 9), pt(1, 1)));
    assert_eq!(v.curve, before);
    assert_eq!(v.timer.elapsed, 8);
}

#[test]
fn offsets_perturb_the_target() {
    let mut w = PathWalker::new(1500, 150);
    assert!(w.tick_and_maybe_regenerate_with(1500, pt(100, 100), pt(-30, 40)));
    assert_eq!(w.curve.p3, pt(70, 140));
    assert_eq!(w.curve.p2, pt(70, 140));
}

#[test]
fn determinism_under_fixed_seed() {
    let bounds = pathwalker::geometry::Rect { min: pt(0, 0), max: pt(800, 600) };
    assert!(sample_space_fits(&bounds, 150));
    let mut rng1 = rand::rngs::StdRng::seed_from_u64(42);
    let mut rng2 = rand::rngs::StdRng::seed_from_u64(42);
    let mut w1 = PathWalker::new(1500, 150);
    let mut w2 = PathWalker::new(1500, 150);
    for _ in 0..100 {
        let f1 = w1.tick_and_maybe_regenerate(700, &bounds, &mut rng1);
        let f2 = w2.tick_and_maybe_regenerate(700, &bounds, &mut rng2);
        assert_eq!(f1, f2);
        assert_eq!(w1, w2);
        assert_eq!(w1.evaluate_for_render(), w2.evaluate_for_render());
    }
}

#[test]
fn continuity_across_random_regenerations() {
    let bounds = pathwalker::geometry::Rect { min: pt(0, 0), max: pt(800, 600) };
    let mut rng = rand::rngs::StdRng::seed_from_u64(7);
    let mut w = PathWalker::new(1500, 150);
    let mut fired_count = 0;
    for _ in 0..200 {
        let previous_end = w.curve.p3;
        if w.tick_and_maybe_regenerate(600, &bounds, &mut rng) {
            fired_count += 1;
            // The new segment starts where the old one ended.
            assert_eq!(w.curve.p0, previous_end);
            // The sampled target lies in the bounds expanded by the offset
            // range on each axis; a draw echoing its lower bound would stay
            // inside too, but the perturbed target must at least never leave
            // this region.
            assert!(w.curve.p3.x >= -150 && w.curve.p3.x < 800 + 150);
            assert!(w.curve.p3.y >= -150 && w.curve.p3.y < 600 + 150);
        } else {
            assert_eq!(w.curve.p3, previous_end);
        }
    }
    assert!(fired_count > 0);
}

#[test]
fn sampled_targets_spread_over_bounds() {
    // The draws actually vary: a generator that echoed a constant would
    // collapse every target to one point.
    let bounds = pathwalker::geometry::Rect { min: pt(0, 0), max: pt(800, 600) };
    let mut rng = rand::rngs::StdRng::seed_from_u64(11);
    let mut w = PathWalker::new(10, 150);
    let mut targets = Vec::new();
    for _ in 0..50 {
        if w.tick_and_maybe_regenerate(10, &bounds, &mut rng) {
            targets.push((w.curve.p3.x, w.curve.p3.y));
        }
    }
    assert_eq!(targets.len(), 50);
    let first = targets[0];
    assert!(targets.iter().any(|t| *t != first));
}

#[test]
fn degenerate_initial_curve_evaluates_to_origin() {
    let w = PathWalker::new(1500, 150);
    let (pos, hue) = w.evaluate_for_render();
    assert_eq!(pos, pt(0, 0));
    assert_eq!(hue, 180);
}

#[test]
fn tangent_hint_is_clamped_into_range() {
    // A segment whose extrapolation leaves the coordinate range has its
    // tangent-hint control point clamped onto the boundary.
    let timer = RepeatingTimer { elapsed: 0, period: 1500 };
    let curve = CubicSegment {
        p0: pt(0, 0),
        p1: pt(0, 0),
        p2: pt(-COORD_LIMIT, 0),
        p3: pt(COORD_LIMIT, 0),
    };
    let mut w = PathWalker { timer, curve, offset_limit: 0 };
    w.regenerate_with(pt(5, 5), pt(0, 0));
    // Raw extrapolation x would be (1521 + 2197) * COORD_LIMIT / 1000.
    assert_eq!(w.curve.p1, pt(COORD_LIMIT, 0));
    assert_eq!(w.curve.p0, pt(COORD_LIMIT, 0));
    assert_eq!(w.curve.p3, pt(5, 5));
}

#[test]
fn sample_space_check_rejects_oversized_bounds() {
    let bounds = pathwalker::geometry::Rect {
        min: pt(0, 0),
        max: pt(COORD_LIMIT, 600),
    };
    assert!(!sample_space_fits(&bounds, 150));
    assert!(sample_space_fits(&bounds, 0));
}
