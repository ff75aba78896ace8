use curve_runner::extender::{
    is_within_limit, COORD_LIMIT,
    radius_from_draw, sample_radius, step_toward, Heading, ProceduralExtender,
    NEW_POINT_GEN_RADIUS, RADIUS_DRAW_BOUND,
};
use curve_runner::geometry::{Point2, Point3};
use curve_runner::spline::Basis;

#[test]
fn radius_is_integer_fifth_root() {
    assert_eq!(radius_from_draw(0), 0);
    assert_eq!(radius_from_draw(1), 1);
    assert_eq!(radius_from_draw(31), 1);
    assert_eq!(radius_from_draw(32), 2);
    assert_eq!(radius_from_draw(242), 2);
    assert_eq!(radius_from_draw(243), 3);
    assert_eq!(radius_from_draw(RADIUS_DRAW_BOUND - 1), 299);
    assert_eq!(radius_from_draw(RADIUS_DRAW_BOUND), 300);
    assert_eq!(radius_from_draw(u64::MAX), 7131);
}

#[test]
fn sampled_radii_favour_long_steps() {
    let n = 10_000;
    let mut radii: Vec<u64> = (0..n).map(|_| sample_radius()).collect();
    assert!(radii.iter().all(|r| *r < NEW_POINT_GEN_RADIUS));
    radii.sort();
    let median = radii[n / 2];
    assert!(median > NEW_POINT_GEN_RADIUS / 2);
    let long = radii.iter().filter(|r| **r as f64 > 0.7 * NEW_POINT_GEN_RADIUS as f64).count();
    assert!(long as f64 > 0.7 * n as f64);
}

#[test]
fn step_rounds_toward_zero() {
    let h = Heading { cos: 32768, sin: -32768 };
    assert_eq!(step_toward(100, h), Point2 { x: 50, y: -50 });
    let h = Heading { cos: -1, sin: 65536 };
    assert_eq!(step_toward(1, h), Point2 { x: 0, y: 1 });
    let h = Heading { cos: -45000, sin: 45000 };
    assert_eq!(step_toward(200, h), Point2 { x: -137, y: 137 });
}

#[test]
fn extend_with_mirrors_aim_through_new_anchor() {
    let mut e = ProceduralExtender { last_anchor: Point3 { x: 10, y: 20, z: 0 } };
    let outgoing = Point3 { x: 5, y: 25, z: 0 };
    let aim = Point3 { x: 100, y: -40, z: 0 };
    let c = e.extend_with(outgoing, aim, Point2 { x: 30, y: -10 });
    assert_eq!(e.last_anchor, Point3 { x: 40, y: 10, z: 0 });
    assert_eq!(c.basis(), Basis::Bezier);
    assert_eq!(c.control_point(0), Point3 { x: 10, y: 20, z: 0 });
    assert_eq!(c.control_point(1), outgoing);
    assert_eq!(c.control_point(2), Point3 { x: -20, y: 60, z: 0 });
    assert_eq!(c.control_point(3), Point3 { x: 40, y: 10, z: 0 });
}

#[test]
fn extend_steps_along_heading() {
    let start = Point3 { x: 0, y: 0, z: 0 };
    let mut e = ProceduralExtender { last_anchor: start };
    let aim = Point3 { x: 7, y: 3, z: 0 };
    let c = e.extend(Point3 { x: -5, y: 0, z: 0 }, aim, Heading { cos: 65536, sin: 0 });
    let a = e.last_anchor;
    assert!(a.x >= 0 && a.x < 300 && a.y == 0 && a.z == 0);
    assert_eq!(c.control_point(0), start);
    assert_eq!(c.control_point(2), Point3 { x: 2 * a.x - 7, y: -3, z: 0 });
    assert_eq!(c.control_point(3), a);
}

#[test]
fn coordinate_limit_check() {
    assert!(is_within_limit(Point3 { x: COORD_LIMIT, y: -COORD_LIMIT, z: 0 }));
    assert!(!is_within_limit(Point3 { x: COORD_LIMIT + 1, y: 0, z: 0 }));
    assert!(!is_within_limit(Point3 { x: 0, y: 0, z: -COORD_LIMIT - 1 }));
}
