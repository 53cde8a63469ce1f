use pathwalker::bezier::{eval_at, extrapolate_clamped, CubicSegment};
use pathwalker::geometry::Point;
use pathwalker::hue::hue_at;
use pathwalker::timer::RepeatingTimer;

fn pt(x: i64, y: i64) -> Point {
    Point { x, y }
}

fn seg(p0: Point, p1: Point, p2: Point, p3: Point) -> CubicSegment {
    CubicSegment { p0, p1, p2, p3 }
}

#[test]
fn eval_endpoints_are_exact() {
    let s = seg(pt(12, -34), pt(500, 600), pt(-700, 800), pt(90, -10));
    assert_eq!(eval_at(&s, 0, 1500), pt(12, -34));
    assert_eq!(eval_at(&s, 1500, 1500), pt(90, -10));
}

#[test]
fn eval_midpoint_of_eased_segment() {
    // With the first three control points at the origin, the curve is
    // t^3 * p3: at half progress that is one eighth of the endpoint.
    let s = seg(pt(0, 0), pt(0, 0), pt(0, 0), pt(1000, 1000));
    assert_eq!(eval_at(&s, 750, 1500), pt(125, 125));
    let n = seg(pt(0, 0), pt(0, 0), pt(0, 0), pt(-1000, -1000));
    assert_eq!(eval_at(&n, 750, 1500), pt(-125, -125));
}

#[test]
fn eval_collinear_control_points_move_linearly() {
    // Equally spaced collinear control points make the cubic a straight
    // line traversed at constant speed.
    let s = seg(pt(0, 0), pt(100, 0), pt(200, 0), pt(300, 0));
    assert_eq!(eval_at(&s, 1, 3), pt(100, 0));
    assert_eq!(eval_at(&s, 2, 3), pt(200, 0));
}

#[test]
fn extrapolation_continues_the_line() {
    let s = seg(pt(0, 0), pt(100, 0), pt(200, 0), pt(300, 0));
    assert_eq!(extrapolate_clamped(&s), pt(390, 0));
}

#[test]
fn extrapolation_truncates_toward_zero() {
    // The raw value -999/1000 rounds toward zero.
    let s = seg(pt(37, -37), pt(0, 0), pt(0, 0), pt(0, 0));
    assert_eq!(extrapolate_clamped(&s), pt(0, 0));
}

#[test]
fn constant_segment_stays_put() {
    let c = pt(42, -17);
    let s = seg(c, c, c, c);
    assert_eq!(eval_at(&s, 700, 1500), c);
    assert_eq!(extrapolate_clamped(&s), c);
}

#[test]
fn hue_hits_its_landmarks() {
    assert_eq!(hue_at(0, 1500), 180);
    assert_eq!(hue_at(750, 1500), 260);
    assert_eq!(hue_at(1500, 1500), 180);
    assert_eq!(hue_at(375, 1500), 236);
    assert_eq!(hue_at(1000, 1500), 249);
}

#[test]
fn hue_sweep_stays_in_range() {
    for e in 0..=1500 {
        let h = hue_at(e, 1500);
        assert!((100..=260).contains(&h));
        assert!((180..=260).contains(&h));
    }
}

#[test]
fn timer_wraps_and_reports_one_edge() {
    let mut t = RepeatingTimer::new(10);
    assert!(!t.tick(4));
    assert_eq!(t.elapsed, 4);
    assert!(!t.tick(5));
    assert_eq!(t.elapsed, 9);
    assert!(t.tick(1));
    assert_eq!(t.elapsed, 0);
    assert!(t.tick(23));
    assert_eq!(t.elapsed, 3);
    assert!(!t.tick(0));
    assert_eq!(t.elapsed, 3);
}
