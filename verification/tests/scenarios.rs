use std::f64::consts::PI;

use arcfit::segment::{Deposition, Segment};
use arcfit::state::State;
use arcfit::window::Window;


#[derive(Clone, Copy, Debug, PartialEq)]
struct Point {
    x: f64,
    y: f64,
}

/// A circle fitted through a chord.
#[derive(Clone, Copy, Debug, PartialEq)]
struct Fit {
    radius: f64,
    centre: Point,
    rms: f64,
}

/// An arc that passed validation.
#[derive(Clone, Copy, Debug, PartialEq)]
struct Arc {
    clockwise: bool,
    /// Negative where the arc turns through more than half a circle.
    radius: f64,
    centre: Point,
}

/// Acceptance thresholds of the validator.
#[derive(Clone, Copy, Debug)]
struct Limits {
    /// Largest root-mean-square radial error of the interior points.
    rms: f64,
    /// Largest angle between neighbouring points, in degrees.
    angle: f64,
    /// Largest deviation between neighbouring points, estimated as the
    /// squared angle times the radius.
    offset: f64,
}

/// Centre of the circle through three points. Where a denominator vanishes
/// the negated coordinate of `p3` is used; the result is then only a seed.
fn centre(p1: &Point, p2: &Point, p3: &Point) -> Point {
    let x12 = p1.x - p2.x;
    let x13 = p1.x - p3.x;
    let y12 = p1.y - p2.y;
    let y13 = p1.y - p3.y;
    let y31 = p3.y - p1.y;
    let y21 = p2.y - p1.y;
    let x31 = p3.x - p1.x;
    let x21 = p2.x - p1.x;

    let sx13 = p1.x.powi(2) - p3.x.powi(2);
    let sy13 = p1.y.powi(2) - p3.y.powi(2);
    let sx21 = p2.x.powi(2) - p1.x.powi(2);
    let sy21 = p2.y.powi(2) - p1.y.powi(2);

    let xden = 2.0 * (x31 * y12 - x21 * y13);
    let yden = 2.0 * (y31 * x12 - y21 * x13);

    let x = if xden == 0.0 {
        -p3.x
    } else {
        -(sx13 * y12 + sy13 * y12 + sx21 * y13 + sy21 * y13) / xden
    };
    let y = if yden == 0.0 {
        -p3.y
    } else {
        -(sx13 * x12 + sy13 * x12 + sx21 * x13 + sy21 * x13) / yden
    };

    Point { x, y }
}

/// Best circle through `a` and `b` for the interior points, which must not
/// be empty. The centre lies at a signed offset `d` from the chord's
/// midpoint along its normal; `d` is sought as a root of the derivative of
/// the summed squared radial error, by at most ten secant steps.
fn best_arc(a: &Point, b: &Point, points: &[Point]) -> Fit {
    let mid = Point { x: (a.x + b.x) / 2.0, y: (a.y + b.y) / 2.0 };
    let k = ((b.y - a.y).powi(2) + (a.x - b.x).powi(2)).sqrt();

    if k == 0.0 {
        return Fit { radius: 0.0, centre: Point { x: 0.0, y: 0.0 }, rms: f64::INFINITY };
    }

    let nx = (b.y - a.y) / k;
    let ny = (a.x - b.x) / k;
    let radius = |d: f64| (d.powi(2) + k.powi(2) / 4.0).sqrt();
    let offset = |d: f64, p: &Point| (mid.x + d / k * (b.y - a.y) - p.x, mid.y + d / k * (a.x - b.x) - p.y);

    let g = |d: f64| -> f64 {
        let mut sum = 0.0;
        for p in points.iter() {
            let (dx, dy) = offset(d, p);
            sum += ((dx.powi(2) + dy.powi(2)).sqrt() - radius(d)).powi(2);
        }
        sum
    };

    let dg = |d: f64| -> f64 {
        let mut sum = 0.0;
        for p in points.iter() {
            let (dx, dy) = offset(d, p);
            let dist = (dx.powi(2) + dy.powi(2)).sqrt();
            sum += 2.0 * (dist - radius(d)) * (1.0 / dist * (dx * nx + dy * ny) - d / radius(d));
        }
        sum
    };

    let seed = &points[(points.len() - 1) / 2];
    let c_est = centre(a, b, seed);
    let d_est = (c_est.x - mid.x) * (b.y - a.y) / k + (c_est.y - mid.y) * (a.x - b.x) / k;

    let mut d_last = d_est - 0.1 * k;
    let mut d_opt = d_est;
    let mut dg_last = dg(d_last);
    let mut dg_opt = dg(d_opt);

    for _ in 0..10 {
        if dg_last == dg_opt {
            break;
        }
        let tmp = d_opt;
        d_opt = d_opt + dg_opt * (d_opt - d_last) / (dg_last - dg_opt);
        d_last = tmp;
        dg_last = dg_opt;
        dg_opt = dg(d_opt);
    }

    let rms = (g(d_opt) / (points.len() as f64)).sqrt();
    let c = Point { x: mid.x + d_opt / k * (b.y - a.y), y: mid.y + d_opt / k * (a.x - b.x) };
    Fit { radius: radius(d_opt), centre: c, rms }
}

/// The angle brought into the range from -pi, exclusive, to pi, inclusive.
fn unwind_angle(angle: f64) -> f64 {
    angle - 2.0 * PI * ((angle - PI) / (2.0 * PI)).ceil()
}

/// The signed angles, seen from `c`, between neighbours in the sequence
/// `a`, the points, `b`: one more than there are points.
fn get_angles(a: &Point, b: &Point, c: &Point, points: &[Point]) -> Vec<f64> {
    let mut angles = Vec::with_capacity(points.len() + 1);
    let mut last = (a.y - c.y).atan2(a.x - c.x);
    for p in points.iter().chain(std::iter::once(b)) {
        let next = (p.y - c.y).atan2(p.x - c.x);
        angles.push(unwind_angle(next - last));
        last = next;
    }
    angles
}

/// Fits a circle and accepts it as an arc from `a` to `b` where the error is
/// within the limit, the points turn one way only, and neighbouring points
/// are close enough in angle and in deviation. A fit that is not a number is
/// rejected.
fn find_best_arc(a: &Point, b: &Point, points: &[Point], limits: &Limits) -> Option<Arc> {
    let fit = best_arc(a, b, points);
    if !(fit.rms <= limits.rms) {
        return None;
    }

    let angles = get_angles(a, b, &fit.centre, points);
    let sign = angles[0].signum();

    let mut max_angle = 0.0;
    for angle in angles {
        if !(sign * angle >= 0.0) {
            return None;
        }
        if sign * angle > max_angle {
            max_angle = sign * angle;
        }
    }
    if max_angle > limits.angle * PI / 180.0 {
        return None;
    }
    if !(max_angle.powi(2) * fit.radius <= limits.offset) {
        return None;
    }

    let c = fit.centre;
    let cross = (b.x - a.x) * (a.y - c.y) + (b.y - a.y) * (c.x - a.x);
    Some(Arc {
        clockwise: sign < 0.0,
        radius: if sign * cross > 0.0 { -fit.radius } else { fit.radius },
        centre: c,
    })
}

fn on_circle(cx: f64, cy: f64, r: f64, degrees: f64) -> Point {
    let t = degrees * PI / 180.0;
    Point { x: cx + r * t.cos(), y: cy + r * t.sin() }
}

fn limits() -> Limits {
    Limits { rms: 0.01, angle: 40.0, offset: 100.0 }
}

/// Cuts `points` into segments, starting from `cursor`.
fn cut(cursor: Point, points: &[Point], min_match: usize, limits: &Limits) -> Vec<Segment<Arc>> {
    let mut state = State::new();
    for p in points {
        state.store_move(*p);
    }
    let flush = state.process_moves(min_match, |w: Window| {
        let a = match w.anchor() {
            Some(i) => points[i],
            None => cursor,
        };
        find_best_arc(&a, &points[w.last], &points[w.first..w.last], limits)
    });
    assert_eq!(flush.moves, points.to_vec());
    assert_eq!(state.queued(), 0);
    flush.segments
}

fn close(a: f64, b: f64) -> bool {
    (a - b).abs() < 1e-6
}

fn arc_of(seg: &Segment<Arc>) -> Arc {
    match seg {
        Segment::Arc { arc, .. } => *arc,
        Segment::Linear { index } => panic!("move {} is linear", index),
    }
}

#[test]
fn collinear_points_fall_back_to_linear_moves() {
    let cursor = Point { x: 0.0, y: 0.0 };
    let points: Vec<Point> = (1..=4).map(|i| Point { x: i as f64, y: 0.0 }).collect();
    assert_eq!(find_best_arc(&cursor, &points[3], &points[0..3], &limits()), None);
    let segs = cut(cursor, &points, 4, &limits());
    assert_eq!(
        segs,
        vec![
            Segment::Linear { index: 0 },
            Segment::Linear { index: 1 },
            Segment::Linear { index: 2 },
            Segment::Linear { index: 3 },
        ]
    );
}

#[test]
fn unevenly_spaced_collinear_points_fall_back_to_linear_moves() {
    let cursor = Point { x: 0.0, y: 0.0 };
    let points = vec![
        Point { x: 1.0, y: 1.0 },
        Point { x: 2.5, y: 2.5 },
        Point { x: 3.0, y: 3.0 },
        Point { x: 7.0, y: 7.0 },
    ];
    let fit = best_arc(&cursor, &points[3], &points[0..3]);
    assert!(fit.rms > 0.01);
    let segs = cut(cursor, &points, 4, &limits());
    assert_eq!(segs.len(), 4);
    for (i, seg) in segs.iter().enumerate() {
        assert_eq!(*seg, Segment::Linear { index: i });
    }
}

#[test]
fn circle_sampled_every_five_degrees_is_one_arc() {
    let cursor = on_circle(0.0, 0.0, 10.0, 0.0);
    let points: Vec<Point> = (1..=18).map(|i| on_circle(0.0, 0.0, 10.0, 5.0 * i as f64)).collect();
    let segs = cut(cursor, &points, 4, &limits());
    assert_eq!(segs.len(), 1);
    assert_eq!(segs[0].start_index(), 0);
    assert_eq!(segs[0].end_index(), 17);
    let arc = arc_of(&segs[0]);
    assert!(!arc.clockwise);
    assert!(close(arc.radius, 10.0));
    assert!(close(arc.centre.x, 0.0) && close(arc.centre.y, 0.0));
}

#[test]
fn circle_sampled_the_other_way_round_is_one_clockwise_arc() {
    let cursor = on_circle(0.0, 0.0, 10.0, 0.0);
    let points: Vec<Point> = (1..=18).map(|i| on_circle(0.0, 0.0, 10.0, -5.0 * i as f64)).collect();
    let segs = cut(cursor, &points, 4, &limits());
    assert_eq!(segs.len(), 1);
    assert_eq!(segs[0].end_index(), 17);
    let arc = arc_of(&segs[0]);
    assert!(arc.clockwise);
    assert!(close(arc.radius, 10.0));
}

#[test]
fn arc_beyond_half_a_circle_has_a_negative_radius() {
    let cursor = on_circle(0.0, 0.0, 10.0, 0.0);
    let points: Vec<Point> = (1..=60).map(|i| on_circle(0.0, 0.0, 10.0, 5.0 * i as f64)).collect();
    let segs = cut(cursor, &points, 4, &limits());
    assert_eq!(segs.len(), 1);
    let arc = arc_of(&segs[0]);
    assert!(!arc.clockwise);
    assert!(close(arc.radius, -10.0));
}

#[test]
fn outlier_ends_the_arc_just_before_it() {
    let cursor = on_circle(0.0, 0.0, 10.0, 0.0);
    let mut points: Vec<Point> =
        (1..=18).map(|i| on_circle(0.0, 0.0, 10.0, 5.0 * i as f64)).collect();
    points[10] = Point { x: 30.0, y: 30.0 };
    let fit = best_arc(&cursor, &points[10], &points[0..10]);
    assert!(fit.rms > 0.01);
    let segs = cut(cursor, &points, 4, &limits());
    assert_eq!(segs[0].start_index(), 0);
    assert_eq!(segs[0].end_index(), 9);
    assert!(close(arc_of(&segs[0]).radius, 10.0));
    assert_eq!(segs[1], Segment::Linear { index: 10 });
    let consumed: usize = segs.iter().map(|s| s.end_index() - s.start_index() + 1).sum();
    assert_eq!(consumed, 18);
}

#[test]
fn reversal_of_rotation_splits_the_run() {
    // A quarter turn to the left about the origin, then a quarter turn to
    // the right about (0, 20); the two circles touch at (0, 10).
    let cursor = on_circle(0.0, 0.0, 10.0, 0.0);
    let mut points: Vec<Point> =
        (1..=9).map(|i| on_circle(0.0, 0.0, 10.0, 10.0 * i as f64)).collect();
    points.extend((1..=9).map(|i| on_circle(0.0, 20.0, 10.0, -90.0 - 10.0 * i as f64)));
    assert_eq!(find_best_arc(&cursor, &points[9], &points[0..9], &limits()), None);
    let segs = cut(cursor, &points, 4, &limits());
    assert_eq!(segs.len(), 2);
    assert_eq!((segs[0].start_index(), segs[0].end_index()), (0, 8));
    assert_eq!((segs[1].start_index(), segs[1].end_index()), (9, 17));
    let left = arc_of(&segs[0]);
    let right = arc_of(&segs[1]);
    assert!(!left.clockwise);
    assert!(right.clockwise);
    assert!(close(left.centre.x, 0.0) && close(left.centre.y, 0.0));
    assert!(close(right.centre.x, 0.0) && close(right.centre.y, 20.0));
}

#[test]
fn coincident_ends_are_never_an_arc() {
    let a = Point { x: 1.0, y: 2.0 };
    let interior = vec![Point { x: 2.0, y: 2.0 }, Point { x: 2.0, y: 3.0 }];
    let fit = best_arc(&a, &a, &interior);
    assert_eq!(fit.radius, 0.0);
    assert!(fit.rms > 1e300);
    let generous = Limits { rms: 1e9, angle: 180.0, offset: 1e9 };
    assert_eq!(find_best_arc(&a, &a, &interior, &generous), None);
}

#[test]
fn circumcentre_is_equidistant_from_its_three_points() {
    let p1 = Point { x: 1.0, y: 7.0 };
    let p2 = Point { x: -4.0, y: 2.0 };
    let p3 = Point { x: 6.0, y: -3.5 };
    let c = centre(&p1, &p2, &p3);
    let d = |p: &Point| ((p.x - c.x).powi(2) + (p.y - c.y).powi(2)).sqrt();
    assert!(close(d(&p1), d(&p2)));
    assert!(close(d(&p2), d(&p3)));
    let c = centre(&on_circle(3.0, -2.0, 5.0, 10.0), &on_circle(3.0, -2.0, 5.0, 100.0), &on_circle(3.0, -2.0, 5.0, 250.0));
    assert!(close(c.x, 3.0) && close(c.y, -2.0));
}

#[test]
fn circumcentre_of_a_degenerate_triple_falls_back_to_the_negated_third_point() {
    let c = centre(&Point { x: 0.0, y: 0.0 }, &Point { x: 4.0, y: 0.0 }, &Point { x: 2.0, y: 1.0 - 1.0 });
    assert_eq!(c.x, -2.0);
    assert_eq!(c.y, 0.0);
}

#[test]
fn exact_circle_fits_with_no_error() {
    let a = on_circle(-2.0, 5.0, 25.0, 30.0);
    let b = on_circle(-2.0, 5.0, 25.0, 75.0);
    let interior: Vec<Point> = (1..9).map(|i| on_circle(-2.0, 5.0, 25.0, 30.0 + 5.0 * i as f64)).collect();
    let fit = best_arc(&a, &b, &interior);
    assert!(fit.rms < 1e-9);
    assert!(close(fit.radius, 25.0));
    assert!(close(fit.centre.x, -2.0) && close(fit.centre.y, 5.0));
}

#[test]
fn swapping_the_ends_flips_the_direction_only() {
    let a = on_circle(0.0, 0.0, 10.0, 0.0);
    let b = on_circle(0.0, 0.0, 10.0, 60.0);
    let interior: Vec<Point> = (1..6).map(|i| on_circle(0.0, 0.0, 10.0, 10.0 * i as f64)).collect();
    let back: Vec<Point> = interior.iter().rev().cloned().collect();
    let there = find_best_arc(&a, &b, &interior, &limits()).unwrap();
    let again = find_best_arc(&b, &a, &back, &limits()).unwrap();
    assert!(!there.clockwise);
    assert!(again.clockwise);
    assert!(close(there.radius, again.radius));
    assert!(close(there.centre.x, again.centre.x));
    assert!(close(there.centre.y, again.centre.y));
}

#[test]
fn tighter_limits_accept_no_more() {
    let a = on_circle(0.0, 0.0, 10.0, 0.0);
    let b = on_circle(0.0, 0.0, 10.0, 60.0);
    let mut interior: Vec<Point> = (1..6).map(|i| on_circle(0.0, 0.0, 10.0, 10.0 * i as f64)).collect();
    interior[2].x += 0.01;
    let loose = Limits { rms: 0.05, angle: 40.0, offset: 1.0 };
    assert!(find_best_arc(&a, &b, &interior, &loose).is_some());
    assert_eq!(find_best_arc(&a, &b, &interior, &Limits { rms: 0.0001, ..loose }), None);
    assert_eq!(find_best_arc(&a, &b, &interior, &Limits { angle: 5.0, ..loose }), None);
    assert_eq!(find_best_arc(&a, &b, &interior, &Limits { offset: 0.1, ..loose }), None);
    let tight = Limits { rms: 0.0001, angle: 5.0, offset: 0.1 };
    assert_eq!(find_best_arc(&a, &b, &interior, &tight), None);
}

#[test]
fn coarse_sampling_is_rejected_by_the_angle_limit() {
    let cursor = on_circle(0.0, 0.0, 10.0, 0.0);
    let points: Vec<Point> = (1..=6).map(|i| on_circle(0.0, 0.0, 10.0, 45.0 * i as f64)).collect();
    let segs = cut(cursor, &points, 4, &limits());
    assert_eq!(segs.len(), 6);
    assert!(segs.iter().all(|s| matches!(s, Segment::Linear { .. })));
}

#[test]
fn angles_are_brought_into_the_half_open_turn() {
    assert!(close(unwind_angle(PI), PI));
    assert!(close(unwind_angle(-PI), PI));
    assert!(close(unwind_angle(1.5 * PI), -0.5 * PI));
    assert!(close(unwind_angle(-1.5 * PI), 0.5 * PI));
    assert!(close(unwind_angle(0.25), 0.25));
    assert!(close(unwind_angle(7.0 * PI + 0.5), -PI + 0.5));
}

#[test]
fn angles_between_neighbours_count_one_more_than_the_interior() {
    let c = Point { x: 0.0, y: 0.0 };
    let a = on_circle(0.0, 0.0, 2.0, 170.0);
    let b = on_circle(0.0, 0.0, 2.0, 200.0);
    let interior = vec![on_circle(0.0, 0.0, 2.0, 180.0), on_circle(0.0, 0.0, 2.0, 190.0)];
    let angles = get_angles(&a, &b, &c, &interior);
    assert_eq!(angles.len(), 3);
    for angle in angles {
        assert!(close(angle, 10.0 * PI / 180.0));
    }
}

#[test]
fn deposition_of_an_arc_depends_on_the_accounting() {
    let amounts = [0.5, 0.25, 0.125, 1.0, 2.0];
    let seg: Segment<()> = Segment::Arc { first: 1, last: 3, arc: () };
    let carried = |relative: bool| match seg.deposition(relative) {
        Deposition::Total { first, last } => amounts[first..=last].iter().sum::<f64>(),
        Deposition::Of { index } => amounts[index],
    };
    assert_eq!(carried(true), 1.375);
    assert_eq!(carried(false), 1.0);
}
