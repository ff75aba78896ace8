use curve_runner::geometry::Point2;
use curve_runner::rocks::{
    bounding_box_of, contains_point, is_intersecting, PolygonBoundingBox, RockBundle,
};

fn q(x: i32, y: i32) -> Point2 {
    Point2 { x, y }
}

fn square() -> Vec<Point2> {
    vec![q(-10, -10), q(10, -10), q(10, 10), q(-10, 10)]
}

#[test]
fn square_contains_inner_point() {
    assert!(contains_point(&square(), &q(5, 5)));
    assert!(RockBundle::new(square()).contains(&q(5, 5)));
}

#[test]
fn square_excludes_far_point() {
    assert!(!contains_point(&square(), &q(50, 50)));
    assert!(!RockBundle::new(square()).contains(&q(50, 50)));
}

#[test]
fn square_boundary_policy() {
    // Right and top edges are outside, left and bottom edges inside; the same every time.
    for _ in 0..3 {
        assert!(!contains_point(&square(), &q(10, 0)));
        assert!(!contains_point(&square(), &q(0, 10)));
        assert!(contains_point(&square(), &q(-10, 0)));
        assert!(contains_point(&square(), &q(0, -10)));
    }
}

#[test]
fn origin_segment_rule_around_the_origin() {
    // The square holds the origin, so the origin-segment rule answers the other way round:
    // it counts the edges between the origin and the point.
    assert!(!is_intersecting(&square(), &q(5, 5)));
    assert!(is_intersecting(&square(), &q(50, 50)));
    assert!(is_intersecting(&square(), &q(10, 0)));
    assert!(!is_intersecting(&square(), &q(0, 0)));
    let rock = RockBundle::new(square());
    assert!(rock.separated_from_origin(&q(50, 50)));
    assert!(rock.contains(&q(0, 0)));
}

#[test]
fn polygon_away_from_origin() {
    // A triangle that does not hold the origin.
    let tri = vec![q(100, 100), q(200, 100), q(150, 200)];
    assert!(is_intersecting(&tri, &q(150, 130)));
    assert!(!is_intersecting(&tri, &q(50, 130)));
    assert!(!is_intersecting(&tri, &q(150, 250)));
    assert!(!is_intersecting(&tri, &q(-150, -130)));
    // Where the origin is outside, both rules agree.
    for pt in [q(150, 130), q(50, 130), q(150, 250), q(-150, -130), q(120, 101)] {
        assert_eq!(contains_point(&tri, &pt), is_intersecting(&tri, &pt));
    }
}

#[test]
fn empty_ring_contains_nothing() {
    assert!(!is_intersecting(&Vec::new(), &q(3, 4)));
    assert!(!contains_point(&Vec::new(), &q(3, 4)));
}

#[test]
fn bounding_box_is_tight() {
    let pts = vec![q(3, -7), q(12, 4), q(-5, 9), q(0, 0)];
    assert_eq!(bounding_box_of(&pts), PolygonBoundingBox(-5, 9, 12, -7));
}

#[test]
fn rock_keeps_ring_and_box() {
    let rock = RockBundle::new(square());
    assert_eq!(rock.points(), &square());
    assert_eq!(rock.bounding_box(), PolygonBoundingBox(-10, 10, 10, -10));
    assert!(rock.contains(&q(5, 5)));
    assert!(!rock.contains(&q(50, 50)));
}
