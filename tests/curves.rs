use curve_runner::geometry::{Param, Point3, RatPoint};
use curve_runner::spline::{Basis, Curve, Spline, SplineError};

fn p(x: i32, y: i32, z: i32) -> Point3 {
    Point3 { x, y, z }
}

fn t(num: i32, den: u16) -> Param {
    Param { num, den }
}

/// The rational point as exact fractions, compared against integers scaled by `den`.
fn denotes(r: &RatPoint, q: Point3) -> bool {
    r.x == q.x as i128 * r.den && r.y == q.y as i128 * r.den && r.z == q.z as i128 * r.den
}

fn same(a: &RatPoint, b: &RatPoint) -> bool {
    a.x * b.den == b.x * a.den && a.y * b.den == b.y * a.den && a.z * b.den == b.z * a.den
}

fn sample_curve() -> Curve {
    Curve::new_bezier(p(0, 0, 0), p(10, 20, 0), p(30, 20, 0), p(40, 0, 0))
}

#[test]
fn bezier_interpolates_end_points() {
    let c = sample_curve();
    assert!(denotes(&c.get_point(t(0, 1)), p(0, 0, 0)));
    assert!(denotes(&c.get_point(t(1, 1)), p(40, 0, 0)));
    assert!(denotes(&c.get_point(t(0, 7)), p(0, 0, 0)));
    assert!(denotes(&c.get_point(t(7, 7)), p(40, 0, 0)));
}

#[test]
fn bezier_midpoint_exact() {
    // (1 * p0 + 3 * p1 + 3 * p2 + 1 * p3) / 8
    let c = sample_curve();
    let r = c.get_point(t(1, 2));
    assert_eq!(r, RatPoint { x: 160, y: 120, z: 0, den: 8 });
}

#[test]
fn bezier_extrapolates_outside_unit_range() {
    let c = Curve::new_bezier(p(0, 0, 0), p(1, 0, 0), p(2, 0, 0), p(3, 0, 0));
    // A straight, evenly spaced segment: x(t) = 3t for every t.
    let r = c.get_point(t(-2, 1));
    assert!(denotes(&r, p(-6, 0, 0)));
    let r = c.get_point(t(5, 2));
    assert!(same(&r, &RatPoint { x: 15, y: 0, z: 0, den: 2 }));
}

#[test]
fn bspline_midpoint_follows_its_matrix() {
    // The basis matrix is (1/6) [[1,0,0,0],[-3,0,3,0],[3,-6,3,0],[-1,3,-3,1]]; at t = 1/2
    // its weights are (1, -9, 15, 1) / 48.
    let c = Curve::new_bspline(p(48, 0, 0), p(0, 48, 0), p(0, 0, 48), p(48, 48, 48));
    assert_eq!(c.basis(), Basis::BSpline);
    let r = c.get_point(t(1, 2));
    assert!(same(&r, &RatPoint { x: 2, y: -8, z: 16, den: 1 }));
    // At t = 0 the first row alone contributes: p0 / 6.
    let r0 = c.get_point(t(0, 1));
    assert!(same(&r0, &RatPoint { x: 8, y: 0, z: 0, den: 1 }));
}

#[test]
fn set_control_point_two_keeps_end_and_moves_midpoint() {
    let mut c = sample_curve();
    let end_before = c.get_point(t(1, 1));
    let mid_before = c.get_point(t(1, 2));
    c.set_control_point(2, p(100, -50, 3));
    assert_eq!(c.control_point(2), p(100, -50, 3));
    assert_eq!(c.get_point(t(1, 1)), end_before);
    assert_ne!(c.get_point(t(1, 2)), mid_before);
    assert_eq!(c.get_point(t(1, 2)), RatPoint { x: 370, y: -90, z: 9, den: 8 });
}

#[test]
fn set_control_point_same_value_keeps_midpoint() {
    let mut c = sample_curve();
    let mid_before = c.get_point(t(1, 2));
    c.set_control_point(2, p(30, 20, 0));
    assert_eq!(c.get_point(t(1, 2)), mid_before);
}

fn points(n: usize) -> Vec<Point3> {
    (0..n).map(|i| p(10 * i as i32, (i % 2) as i32 * 5, 0)).collect()
}

#[test]
fn spline_point_count_errors() {
    assert_eq!(Spline::new_bezier(Vec::new()).unwrap_err(), SplineError::NoPoints);
    for n in 1..4 {
        assert_eq!(Spline::new_bezier(points(n)).unwrap_err(), SplineError::TooFewPoints(n));
    }
    for n in [5usize, 6, 8, 9, 11, 12] {
        assert_eq!(Spline::new_bezier(points(n)).unwrap_err(), SplineError::InvalidCount(n));
    }
}

#[test]
fn spline_segment_count() {
    for n in [4usize, 7, 10, 13, 31] {
        let s = Spline::new_bezier(points(n)).unwrap();
        assert_eq!(s.size(), (n - 4) / 3 + 1);
    }
}

#[test]
fn spline_joints_are_continuous() {
    let pts = points(13);
    let s = Spline::new_bezier(pts.clone()).unwrap();
    for k in 1..s.size() {
        let at_joint = s.get_point(t(k as i32, 1));
        assert!(denotes(&at_joint, pts[3 * k]));
        // The segment before the joint, at its parameter one.
        let before = Curve::new_bezier(pts[3 * k - 3], pts[3 * k - 2], pts[3 * k - 1], pts[3 * k]);
        assert!(same(&before.get_point(t(1, 1)), &at_joint));
        // Just below and just above the joint the chain stays close to it.
        let below = s.get_point(t(1000 * k as i32 - 1, 1000));
        let above = s.get_point(t(1000 * k as i32 + 1, 1000));
        let anchor = pts[3 * k];
        for r in [below, above] {
            let dx = r.x - anchor.x as i128 * r.den;
            let dy = r.y - anchor.y as i128 * r.den;
            assert!(dx.abs() * 10 < r.den && dy.abs() * 10 < r.den);
        }
    }
}

#[test]
fn spline_saturates_below_zero_and_past_end() {
    let pts = points(10);
    let s = Spline::new_bezier(pts.clone()).unwrap();
    let first = Curve::new_bezier(pts[0], pts[1], pts[2], pts[3]);
    let last = Curve::new_bezier(pts[6], pts[7], pts[8], pts[9]);
    assert_eq!(s.get_point(t(-3, 2)), first.get_point(t(-3, 2)));
    assert!(denotes(&s.get_point(t(0, 1)), pts[0]));
    // size is 3: parameters at or past 3 stay on the last segment, shifted by 2.
    assert_eq!(s.get_point(t(3, 1)), last.get_point(t(1, 1)));
    assert!(denotes(&s.get_point(t(3, 1)), pts[9]));
    assert_eq!(s.get_point(t(9, 2)), last.get_point(t(5, 2)));
    assert_eq!(s.get_point(t(40, 1)), last.get_point(t(38, 1)));
}

#[test]
fn spline_middle_parameter_uses_its_segment() {
    let pts = points(10);
    let s = Spline::new_bezier(pts.clone()).unwrap();
    let middle = Curve::new_bezier(pts[3], pts[4], pts[5], pts[6]);
    assert_eq!(s.get_point(t(3, 2)), middle.get_point(t(1, 2)));
}
