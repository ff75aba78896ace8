//! Closed polygons ("rocks"): their bounding box, and whether a point is separated from
//! the origin by an odd number of polygon edges.
use vstd::prelude::*;

use crate::geometry::Point2;

verus! {

/// The ordered vertex ring of a polygon; the last vertex connects back to the first.
#[derive(Clone, Debug)]
pub struct PolygonPoints(pub Vec<Point2>);

/// The tight axis-aligned box of a polygon: left, top, right, bottom
/// (smallest x, largest y, largest x, smallest y).
#[derive(Clone, Copy, Debug, PartialEq, Eq, Structural)]
pub struct PolygonBoundingBox(pub i32, pub i32, pub i32, pub i32);

/// `b` is the tight box of the non-empty vertex list `pts`.
pub open spec fn is_bounding_box(b: PolygonBoundingBox, pts: Seq<Point2>) -> bool {
    &&& forall|i: int|
        0 <= i < pts.len() ==> b.0 <= (#[trigger] pts[i]).x <= b.2 && b.3 <= pts[i].y <= b.1
    &&& exists|i: int| 0 <= i < pts.len() && (#[trigger] pts[i]).x == b.0
    &&& exists|i: int| 0 <= i < pts.len() && (#[trigger] pts[i]).y == b.1
    &&& exists|i: int| 0 <= i < pts.len() && (#[trigger] pts[i]).x == b.2
    &&& exists|i: int| 0 <= i < pts.len() && (#[trigger] pts[i]).y == b.3
}

/// The cross product `u x v`.
pub open spec fn cross(ux: int, uy: int, vx: int, vy: int) -> int {
    ux * vy - uy * vx
}

/// `q` lies strictly to the left of the line from the origin through `p`.
pub open spec fn left_of(p: Point2, q: Point2) -> bool {
    cross(p.x as int, p.y as int, q.x as int, q.y as int) > 0
}

/// The edge from `a` to `b` is counted for `p`: its end points lie on different sides of
/// the line through the origin and `p` (a point on the line counts as the right side), and
/// the two lines meet within the closed segment from the origin to `p`.
///
/// The lines meet at `s * p` with `s = (a x (b - a)) / (p x (b - a))`; the sides differ, so
/// the denominator is not zero.
pub open spec fn edge_crosses(p: Point2, a: Point2, b: Point2) -> bool {
    let dx = b.x - a.x;
    let dy = b.y - a.y;
    let num = cross(a.x as int, a.y as int, dx, dy);
    let den = cross(p.x as int, p.y as int, dx, dy);
    &&& left_of(p, a) != left_of(p, b)
    &&& if den > 0 {
        0 <= num <= den
    } else {
        den <= num <= 0
    }
}

/// The number of counted edges among the first `k` edges `(pts[i], pts[(i + 1) % len])`.
pub open spec fn crossings(pts: Seq<Point2>, p: Point2, k: int) -> int
    decreases k,
{
    if k <= 0 {
        0
    } else {
        crossings(pts, p, k - 1) + if edge_crosses(p, pts[k - 1], pts[k % (pts.len() as int)]) {
            1int
        } else {
            0int
        }
    }
}

/// `p` is separated from the origin by an odd number of edges of the ring `pts`; the
/// origin itself is never inside.
pub open spec fn encloses(pts: Seq<Point2>, p: Point2) -> bool {
    &&& !(p.x == 0 && p.y == 0)
    &&& crossings(pts, p, pts.len() as int) % 2 == 1
}

/// The edge from `a` to `b` crosses the ray from `p` toward increasing x: its ends lie
/// on different sides of the horizontal line through `p` (a point on the line counts as
/// below), and it meets that line strictly to the right of `p`.
pub open spec fn ray_crosses(p: Point2, a: Point2, b: Point2) -> bool {
    let lhs = (p.x - a.x) * (b.y - a.y);
    let rhs = (p.y - a.y) * (b.x - a.x);
    &&& (a.y > p.y) != (b.y > p.y)
    &&& if b.y > a.y {
        lhs < rhs
    } else {
        lhs > rhs
    }
}

/// The number of edges among the first `k` that the ray from `p` crosses.
pub open spec fn ray_crossings(pts: Seq<Point2>, p: Point2, k: int) -> int
    decreases k,
{
    if k <= 0 {
        0
    } else {
        ray_crossings(pts, p, k - 1) + if ray_crosses(p, pts[k - 1], pts[k % (pts.len() as int)]) {
            1int
        } else {
            0int
        }
    }
}

/// Even-odd rule: `p` is inside the ring `pts` when a ray from it crosses an odd number
/// of edges.
pub open spec fn inside_even_odd(pts: Seq<Point2>, p: Point2) -> bool {
    ray_crossings(pts, p, pts.len() as int) % 2 == 1
}

/// Whether the edge from `a` to `b` is counted for `p`.
fn edge_crosses_exec(p: &Point2, a: &Point2, b: &Point2) -> (r: bool)
    ensures
        r == edge_crosses(*p, *a, *b),
{
    let (px, py) = (p.x as i128, p.y as i128);
    let (ax, ay) = (a.x as i128, a.y as i128);
    let (bx, by) = (b.x as i128, b.y as i128);
    proof {
        assert(-0x4000_0000_0000_0000 <= px * ay <= 0x4000_0000_0000_0000) by (nonlinear_arith)
            requires
                -0x8000_0000 <= px < 0x8000_0000,
                -0x8000_0000 <= ay < 0x8000_0000,
        ;
        assert(-0x4000_0000_0000_0000 <= py * ax <= 0x4000_0000_0000_0000) by (nonlinear_arith)
            requires
                -0x8000_0000 <= py < 0x8000_0000,
                -0x8000_0000 <= ax < 0x8000_0000,
        ;
        assert(-0x4000_0000_0000_0000 <= px * by <= 0x4000_0000_0000_0000) by (nonlinear_arith)
            requires
                -0x8000_0000 <= px < 0x8000_0000,
                -0x8000_0000 <= by < 0x8000_0000,
        ;
        assert(-0x4000_0000_0000_0000 <= py * bx <= 0x4000_0000_0000_0000) by (nonlinear_arith)
            requires
                -0x8000_0000 <= py < 0x8000_0000,
                -0x8000_0000 <= bx < 0x8000_0000,
        ;
    }
    let side_a = px * ay - py * ax > 0;
    let side_b = px * by - py * bx > 0;
    if side_a == side_b {
        return false;
    }
    let dx = bx - ax;
    let dy = by - ay;
    proof {
        assert(-0x8000_0000_0000_0000 <= ax * dy <= 0x8000_0000_0000_0000) by (nonlinear_arith)
            requires
                -0x8000_0000 <= ax < 0x8000_0000,
                -0x1_0000_0000 <= dy <= 0x1_0000_0000,
        ;
        assert(-0x8000_0000_0000_0000 <= ay * dx <= 0x8000_0000_0000_0000) by (nonlinear_arith)
            requires
                -0x8000_0000 <= ay < 0x8000_0000,
                -0x1_0000_0000 <= dx <= 0x1_0000_0000,
        ;
        assert(-0x8000_0000_0000_0000 <= px * dy <= 0x8000_0000_0000_0000) by (nonlinear_arith)
            requires
                -0x8000_0000 <= px < 0x8000_0000,
                -0x1_0000_0000 <= dy <= 0x1_0000_0000,
        ;
        assert(-0x8000_0000_0000_0000 <= py * dx <= 0x8000_0000_0000_0000) by (nonlinear_arith)
            requires
                -0x8000_0000 <= py < 0x8000_0000,
                -0x1_0000_0000 <= dx <= 0x1_0000_0000,
        ;
    }
    let num = ax * dy - ay * dx;
    let den = px * dy - py * dx;
    if den > 0 {
        0 <= num && num <= den
    } else {
        den <= num && num <= 0
    }
}

/// Whether `player_pos` is separated from the origin by an odd number of edges of the
/// closed ring `polygon_points`. The ray is the segment from the origin to the point, so
/// the answer is containment when the origin lies outside the polygon. A point on the
/// line of an edge end counts on the right side; an intersection at either end of the
/// segment counts.
pub fn is_intersecting(polygon_points: &Vec<Point2>, player_pos: &Point2) -> (r: bool)
    ensures
        r == encloses(polygon_points@, *player_pos),
{
    if player_pos.x == 0 && player_pos.y == 0 {
        return false;
    }
    let len = polygon_points.len();
    let mut count: usize = 0;
    let mut i: usize = 0;
    while i < len
        invariant
            len == polygon_points@.len(),
            i <= len,
            count == crossings(polygon_points@, *player_pos, i as int),
            count <= i,
        decreases len - i,
    {
        let a = &polygon_points[i];
        let b = &polygon_points[(i + 1) % len];
        if edge_crosses_exec(player_pos, a, b) {
            count = count + 1;
        }
        i = i + 1;
    }
    count % 2 == 1
}

/// Whether the ray from `p` toward increasing x crosses the edge from `a` to `b`.
fn ray_crosses_exec(p: &Point2, a: &Point2, b: &Point2) -> (r: bool)
    ensures
        r == ray_crosses(*p, *a, *b),
{
    if (a.y > p.y) == (b.y > p.y) {
        return false;
    }
    let (px, py) = (p.x as i128, p.y as i128);
    let (ax, ay) = (a.x as i128, a.y as i128);
    let (bx, by) = (b.x as i128, b.y as i128);
    proof {
        assert(-0x4_0000_0000_0000_0000 <= (px - ax) * (by - ay) <= 0x4_0000_0000_0000_0000) by (nonlinear_arith)
            requires
                -0x1_0000_0000 <= px - ax <= 0x1_0000_0000,
                -0x1_0000_0000 <= by - ay <= 0x1_0000_0000,
        ;
        assert(-0x4_0000_0000_0000_0000 <= (py - ay) * (bx - ax) <= 0x4_0000_0000_0000_0000) by (nonlinear_arith)
            requires
                -0x1_0000_0000 <= py - ay <= 0x1_0000_0000,
                -0x1_0000_0000 <= bx - ax <= 0x1_0000_0000,
        ;
    }
    let lhs = (px - ax) * (by - ay);
    let rhs = (py - ay) * (bx - ax);
    if by > ay {
        lhs < rhs
    } else {
        lhs > rhs
    }
}

/// Whether `p` lies inside the closed ring `polygon_points` by the even-odd rule, with a
/// ray toward increasing x. Unlike `is_intersecting` it needs no reference point outside
/// the polygon. Points on a left or bottom edge count as inside, points on a right or top
/// edge as outside.
pub fn contains_point(polygon_points: &Vec<Point2>, p: &Point2) -> (r: bool)
    ensures
        r == inside_even_odd(polygon_points@, *p),
{
    let len = polygon_points.len();
    let mut count: usize = 0;
    let mut i: usize = 0;
    while i < len
        invariant
            len == polygon_points@.len(),
            i <= len,
            count == ray_crossings(polygon_points@, *p, i as int),
            count <= i,
        decreases len - i,
    {
        if ray_crosses_exec(p, &polygon_points[i], &polygon_points[(i + 1) % len]) {
            count = count + 1;
        }
        i = i + 1;
    }
    count % 2 == 1
}

/// A closed polygon with its bounding box.
#[derive(Clone, Debug)]
pub struct RockBundle {
    polygon: PolygonPoints,
    bounding_box: PolygonBoundingBox,
}

/// The tight box of a non-empty vertex list.
pub fn bounding_box_of(points: &Vec<Point2>) -> (b: PolygonBoundingBox)
    requires
        points@.len() >= 1,
    ensures
        is_bounding_box(b, points@),
{
    let p0 = points[0];
    let mut b = PolygonBoundingBox(p0.x, p0.y, p0.x, p0.y);
    let mut i: usize = 1;
    assert(points@.subrange(0, 1)[0] == p0);
    while i < points.len()
        invariant
            1 <= i <= points@.len(),
            is_bounding_box(b, points@.subrange(0, i as int)),
        decreases points@.len() - i,
    {
        let p = points[i];
        let ghost old_b = b;
        let ghost prefix = points@.subrange(0, i as int);
        let ghost next = points@.subrange(0, i as int + 1);
        if p.x < b.0 {
            b.0 = p.x;
        }
        if p.y > b.1 {
            b.1 = p.y;
        }
        if p.x > b.2 {
            b.2 = p.x;
        }
        if p.y < b.3 {
            b.3 = p.y;
        }
        proof {
            assert forall|j: int| 0 <= j < next.len() implies b.0 <= (#[trigger] next[j]).x <= b.2
                && b.3 <= next[j].y <= b.1 by {
                if j < i {
                    assert(next[j] == prefix[j]);
                }
            }
            let last = i as int;
            assert(next[last] == p);
            if b.0 == old_b.0 {
                let w = choose|w: int| 0 <= w < prefix.len() && (#[trigger] prefix[w]).x == old_b.0;
                assert(next[w] == prefix[w]);
            }
            if b.1 == old_b.1 {
                let w = choose|w: int| 0 <= w < prefix.len() && (#[trigger] prefix[w]).y == old_b.1;
                assert(next[w] == prefix[w]);
            }
            if b.2 == old_b.2 {
                let w = choose|w: int| 0 <= w < prefix.len() && (#[trigger] prefix[w]).x == old_b.2;
                assert(next[w] == prefix[w]);
            }
            if b.3 == old_b.3 {
                let w = choose|w: int| 0 <= w < prefix.len() && (#[trigger] prefix[w]).y == old_b.3;
                assert(next[w] == prefix[w]);
            }
        }
        i = i + 1;
    }
    assert(points@.subrange(0, points@.len() as int) =~= points@);
    b
}

impl RockBundle {
    /// The vertex ring, in order.
    pub closed spec fn ring(&self) -> Seq<Point2> {
        self.polygon.0@
    }

    /// The box held is the tight box of the ring, which has at least three vertices.
    pub closed spec fn wf(&self) -> bool {
        &&& self.polygon.0@.len() >= 3
        &&& is_bounding_box(self.bounding_box, self.polygon.0@)
    }

    /// The polygon whose ring is `points`.
    pub fn new(points: Vec<Point2>) -> (r: RockBundle)
        requires
            points@.len() >= 3,
        ensures
            r.wf(),
            r.ring() == points@,
    {
        let bounding_box = bounding_box_of(&points);
        RockBundle { polygon: PolygonPoints(points), bounding_box }
    }

    /// The vertex ring.
    pub fn points(&self) -> (r: &Vec<Point2>)
        ensures
            r@ == self.ring(),
    {
        &self.polygon.0
    }

    /// The tight box of the ring.
    pub fn bounding_box(&self) -> (b: PolygonBoundingBox)
        requires
            self.wf(),
        ensures
            is_bounding_box(b, self.ring()),
    {
        self.bounding_box
    }

    /// Whether `p` is inside the polygon, by the even-odd rule of `contains_point`.
    pub fn contains(&self, p: &Point2) -> (r: bool)
        ensures
            r == inside_even_odd(self.ring(), *p),
    {
        contains_point(&self.polygon.0, p)
    }

    /// Whether `p` is separated from the origin by an odd number of edges, by the rule of
    /// `is_intersecting`; this is containment only for a polygon that leaves the origin out.
    pub fn separated_from_origin(&self, p: &Point2) -> (r: bool)
        ensures
            r == encloses(self.ring(), *p),
    {
        is_intersecting(&self.polygon.0, p)
    }
}

} // verus!
