//! Cubic curve segments over a Bezier or uniform B-spline basis, and chains of
//! Bezier segments that share their end points.
use vstd::prelude::*;

use crate::geometry::{Param, Point3, RatPoint};

verus! {

/// The basis of a cubic segment.
#[derive(Clone, Copy, Debug, PartialEq, Eq, Structural)]
pub enum Basis {
    Bezier,
    BSpline,
}

/// The basis matrix is `basis_entry / basis_scale`: the B-spline matrix carries a factor 1/6.
pub open spec fn basis_scale(b: Basis) -> int {
    match b {
        Basis::Bezier => 1,
        Basis::BSpline => 6,
    }
}

/// Entry `(i, j)` of the basis matrix, multiplied by `basis_scale(b)`.
pub open spec fn basis_entry(b: Basis, i: int, j: int) -> int {
    if i == 0 {
        if j == 0 { 1 } else { 0 }
    } else if i == 1 {
        match b {
            Basis::Bezier => if j == 0 { -3 } else if j == 1 { 3 } else { 0 },
            Basis::BSpline => if j == 0 { -3 } else if j == 2 { 3 } else { 0 },
        }
    } else if i == 2 {
        if j == 0 { 3 } else if j == 1 { -6 } else if j == 2 { 3 } else { 0 }
    } else {
        if j == 0 { -1 } else if j == 1 { 3 } else if j == 2 { -3 } else { 1 }
    }
}

/// Row `i` of the basis matrix applied to the four coordinates `c0 .. c3`.
pub open spec fn coeff(b: Basis, i: int, c0: int, c1: int, c2: int, c3: int) -> int {
    basis_entry(b, i, 0) * c0 + basis_entry(b, i, 1) * c1 + basis_entry(b, i, 2) * c2
        + basis_entry(b, i, 3) * c3
}

/// The weight of control point `j` at parameter `n / d`, times `basis_scale(b) * d^3`.
pub open spec fn weight(b: Basis, j: int, n: int, d: int) -> int {
    let m = d - n;
    match b {
        Basis::Bezier => if j == 0 {
            m * m * m
        } else if j == 1 {
            3 * n * m * m
        } else if j == 2 {
            3 * n * n * m
        } else {
            n * n * n
        },
        Basis::BSpline => if j == 0 {
            m * m * m
        } else if j == 1 {
            3 * n * n * n - 6 * n * n * d
        } else if j == 2 {
            -3 * n * n * n + 3 * n * n * d + 3 * n * d * d
        } else {
            n * n * n
        },
    }
}

/// The coordinate of the curve at parameter `n / d` whose control coordinates are
/// `c0 .. c3`, times `basis_scale(b) * d^3`.
pub open spec fn blend(b: Basis, n: int, d: int, c0: int, c1: int, c2: int, c3: int) -> int {
    weight(b, 0, n, d) * c0 + weight(b, 1, n, d) * c1 + weight(b, 2, n, d) * c2 + weight(b, 3, n, d)
        * c3
}

/// `r` is the point of the segment with basis `b` and control points `pts` at parameter `n / d`.
pub open spec fn is_value_at(r: RatPoint, b: Basis, pts: Seq<Point3>, n: int, d: int) -> bool {
    &&& r.den == basis_scale(b) * (d * d * d)
    &&& r.x == blend(b, n, d, pts[0].x as int, pts[1].x as int, pts[2].x as int, pts[3].x as int)
    &&& r.y == blend(b, n, d, pts[0].y as int, pts[1].y as int, pts[2].y as int, pts[3].y as int)
    &&& r.z == blend(b, n, d, pts[0].z as int, pts[1].z as int, pts[2].z as int, pts[3].z as int)
}

/// One row of the cached coefficient matrix: basis row times the stacked control points.
#[derive(Clone, Copy, Debug)]
struct Coeffs {
    x: i64,
    y: i64,
    z: i64,
}

spec fn row_matches(k: Coeffs, b: Basis, i: int, pts: Seq<Point3>) -> bool {
    &&& k.x == coeff(b, i, pts[0].x as int, pts[1].x as int, pts[2].x as int, pts[3].x as int)
    &&& k.y == coeff(b, i, pts[0].y as int, pts[1].y as int, pts[2].y as int, pts[3].y as int)
    &&& k.z == coeff(b, i, pts[0].z as int, pts[1].z as int, pts[2].z as int, pts[3].z as int)
}

/// Row `i` of the basis matrix (times its scale) applied to four coordinates.
fn coeff_exec(b: Basis, i: usize, c0: i32, c1: i32, c2: i32, c3: i32) -> (r: i64)
    requires
        i < 4,
    ensures
        r == coeff(b, i as int, c0 as int, c1 as int, c2 as int, c3 as int),
{
    let (a0, a1, a2, a3) = (c0 as i64, c1 as i64, c2 as i64, c3 as i64);
    if i == 0 {
        a0
    } else if i == 1 {
        match b {
            Basis::Bezier => 3 * a1 - 3 * a0,
            Basis::BSpline => 3 * a2 - 3 * a0,
        }
    } else if i == 2 {
        3 * a0 - 6 * a1 + 3 * a2
    } else {
        3 * a1 - a0 - 3 * a2 + a3
    }
}

fn row_of(b: Basis, i: usize, pts: &[Point3; 4]) -> (k: Coeffs)
    requires
        i < 4,
    ensures
        row_matches(k, b, i as int, pts@),
{
    Coeffs {
        x: coeff_exec(b, i, pts[0].x, pts[1].x, pts[2].x, pts[3].x),
        y: coeff_exec(b, i, pts[0].y, pts[1].y, pts[2].y, pts[3].y),
        z: coeff_exec(b, i, pts[0].z, pts[1].z, pts[2].z, pts[3].z),
    }
}

fn rows_of(b: Basis, pts: &[Point3; 4]) -> (rows: [Coeffs; 4])
    ensures
        forall|i: int| 0 <= i < 4 ==> row_matches(#[trigger] rows@[i], b, i, pts@),
{
    [row_of(b, 0, pts), row_of(b, 1, pts), row_of(b, 2, pts), row_of(b, 3, pts)]
}

/// `|a * b| <= x * y` whenever `|a| <= x` and `|b| <= y`.
proof fn lemma_mul_bound(a: int, b: int, x: int, y: int)
    requires
        -x <= a <= x,
        -y <= b <= y,
    ensures
        -(x * y) <= a * b <= x * y,
{
    assert(-(x * y) <= a * b <= x * y) by (nonlinear_arith)
        requires
            -x <= a <= x,
            -y <= b <= y,
    ;
}

/// Every cached coefficient is bounded by twelve times the largest coordinate.
proof fn lemma_coeff_bound(b: Basis, i: int, c0: int, c1: int, c2: int, c3: int)
    requires
        0 <= i < 4,
        -0x8000_0000 <= c0 < 0x8000_0000,
        -0x8000_0000 <= c1 < 0x8000_0000,
        -0x8000_0000 <= c2 < 0x8000_0000,
        -0x8000_0000 <= c3 < 0x8000_0000,
    ensures
        -0x8_0000_0000 <= coeff(b, i, c0, c1, c2, c3) <= 0x8_0000_0000,
{
}

/// A product with a linear combination, spread over its terms.
proof fn lemma_spread(p: int, k: int, e0: int, e1: int, e2: int, e3: int, c0: int, c1: int, c2: int, c3: int)
    requires
        k == e0 * c0 + e1 * c1 + e2 * c2 + e3 * c3,
    ensures
        p * k == e0 * (p * c0) + e1 * (p * c1) + e2 * (p * c2) + e3 * (p * c3),
        k * p == e0 * (c0 * p) + e1 * (c1 * p) + e2 * (c2 * p) + e3 * (c3 * p),
{
    broadcast use vstd::arithmetic::mul::group_mul_is_commutative_and_distributive,
        vstd::arithmetic::mul::lemma_mul_is_associative;

    assert(p * k == p * (e0 * c0) + p * (e1 * c1) + p * (e2 * c2) + p * (e3 * c3));
    assert(p * (e0 * c0) == e0 * (p * c0));
    assert(p * (e1 * c1) == e1 * (p * c1));
    assert(p * (e2 * c2) == e2 * (p * c2));
    assert(p * (e3 * c3) == e3 * (p * c3));
    assert(k * p == p * k);
    assert(c0 * p == p * c0);
    assert(c1 * p == p * c1);
    assert(c2 * p == p * c2);
    assert(c3 * p == p * c3);
}

/// Evaluating the power basis `[d^3, n d^2, n^2 d, n^3]` against the cached rows gives the
/// blend of the control coordinates.
proof fn lemma_power_form(
    b: Basis,
    n: int,
    d: int,
    c0: int,
    c1: int,
    c2: int,
    c3: int,
    k0: int,
    k1: int,
    k2: int,
    k3: int,
)
    requires
        k0 == coeff(b, 0, c0, c1, c2, c3),
        k1 == coeff(b, 1, c0, c1, c2, c3),
        k2 == coeff(b, 2, c0, c1, c2, c3),
        k3 == coeff(b, 3, c0, c1, c2, c3),
    ensures
        d * d * d * k0 + n * (d * d) * k1 + n * n * d * k2 + n * n * n * k3 == blend(
            b,
            n,
            d,
            c0,
            c1,
            c2,
            c3,
        ),
{
    let p0 = d * d * d;
    let p1 = n * (d * d);
    let p2 = n * n * d;
    let p3 = n * n * n;
    let m = d - n;
    let w0 = weight(b, 0, n, d);
    let w1 = weight(b, 1, n, d);
    let w2 = weight(b, 2, n, d);
    let w3 = weight(b, 3, n, d);
    assert(m * m * m == p0 - 3 * p1 + 3 * p2 - p3) by (nonlinear_arith)
        requires
            m == d - n,
            p0 == d * d * d,
            p1 == n * (d * d),
            p2 == n * n * d,
            p3 == n * n * n,
    ;
    lemma_spread(p0, k0, 1, 0, 0, 0, c0, c1, c2, c3);
    lemma_spread(p2, k2, 3, -6, 3, 0, c0, c1, c2, c3);
    lemma_spread(p3, k3, -1, 3, -3, 1, c0, c1, c2, c3);
    lemma_spread(c0, w0, 1, -3, 3, -1, p0, p1, p2, p3);
    lemma_spread(c3, w3, 0, 0, 0, 1, p0, p1, p2, p3);
    match b {
        Basis::Bezier => {
            lemma_spread(p1, k1, -3, 3, 0, 0, c0, c1, c2, c3);
            assert(3 * n * m * m == 3 * p1 - 6 * p2 + 3 * p3) by (nonlinear_arith)
                requires
                    m == d - n,
                    p1 == n * (d * d),
                    p2 == n * n * d,
                    p3 == n * n * n,
            ;
            assert(3 * n * n * m == 3 * p2 - 3 * p3) by (nonlinear_arith)
                requires
                    m == d - n,
                    p2 == n * n * d,
                    p3 == n * n * n,
            ;
            assert(w1 == 3 * p1 - 6 * p2 + 3 * p3);
            assert(w2 == 3 * p2 - 3 * p3);
            lemma_spread(c1, w1, 0, 3, -6, 3, p0, p1, p2, p3);
            lemma_spread(c2, w2, 0, 0, 3, -3, p0, p1, p2, p3);
            assert(p1 * k1 == -3 * (p1 * c0) + 3 * (p1 * c1));
            assert(p0 * k0 + p1 * k1 + p2 * k2 + p3 * k3 == w0 * c0 + w1 * c1 + w2 * c2 + w3 * c3);
        },
        Basis::BSpline => {
            lemma_spread(p1, k1, -3, 0, 3, 0, c0, c1, c2, c3);
            assert(3 * n * n * n - 6 * n * n * d == -6 * p2 + 3 * p3) by (nonlinear_arith)
                requires
                    p2 == n * n * d,
                    p3 == n * n * n,
            ;
            assert(-3 * n * n * n + 3 * n * n * d + 3 * n * d * d == 3 * p1 + 3 * p2 - 3 * p3) by (nonlinear_arith)
                requires
                    p1 == n * (d * d),
                    p2 == n * n * d,
                    p3 == n * n * n,
            ;
            assert(w1 == -6 * p2 + 3 * p3);
            assert(w2 == 3 * p1 + 3 * p2 - 3 * p3);
            lemma_spread(c1, w1, 0, 0, -6, 3, p0, p1, p2, p3);
            lemma_spread(c2, w2, 0, 3, 3, -3, p0, p1, p2, p3);
            assert(p1 * k1 == -3 * (p1 * c0) + 3 * (p1 * c2));
            assert(p0 * k0 + p1 * k1 + p2 * k2 + p3 * k3 == w0 * c0 + w1 * c1 + w2 * c2 + w3 * c3);
        },
    }
    assert(blend(b, n, d, c0, c1, c2, c3) == w0 * c0 + w1 * c1 + w2 * c2 + w3 * c3);
}

/// `t0 k0 + t1 k1 + t2 k2 + t3 k3`, for the power basis of a valid parameter.
fn combine(t0: i128, t1: i128, t2: i128, t3: i128, k0: i64, k1: i64, k2: i64, k3: i64) -> (r: i128)
    requires
        -0x1_0000_0000_0000 <= t0 <= 0x1_0000_0000_0000,
        -0x4000_0000_0000_0000 <= t1 <= 0x4000_0000_0000_0000,
        -0x1000_0000_0000_0000_0000 <= t2 <= 0x1000_0000_0000_0000_0000,
        -0x400_0000_0000_0000_0000_0000 <= t3 <= 0x400_0000_0000_0000_0000_0000,
        -0x8_0000_0000 <= k0 <= 0x8_0000_0000,
        -0x8_0000_0000 <= k1 <= 0x8_0000_0000,
        -0x8_0000_0000 <= k2 <= 0x8_0000_0000,
        -0x8_0000_0000 <= k3 <= 0x8_0000_0000,
    ensures
        r == t0 * k0 + t1 * k1 + t2 * k2 + t3 * k3,
{
    proof {
        lemma_mul_bound(t0 as int, k0 as int, 0x1_0000_0000_0000, 0x8_0000_0000);
        lemma_mul_bound(t1 as int, k1 as int, 0x4000_0000_0000_0000, 0x8_0000_0000);
        lemma_mul_bound(t2 as int, k2 as int, 0x1000_0000_0000_0000_0000, 0x8_0000_0000);
        lemma_mul_bound(t3 as int, k3 as int, 0x400_0000_0000_0000_0000_0000, 0x8_0000_0000);
    }
    t0 * (k0 as i128) + t1 * (k1 as i128) + t2 * (k2 as i128) + t3 * (k3 as i128)
}

/// A cubic segment: four control points, a basis, and the product of the basis
/// matrix with the stacked control points, kept current at every change of a point.
#[derive(Debug)]
pub struct Curve {
    basis: Basis,
    cached: [Coeffs; 4],
    points: [Point3; 4],
}

impl Curve {
    /// The basis of the segment.
    pub closed spec fn kind(&self) -> Basis {
        self.basis
    }

    /// The four control points, in order.
    pub closed spec fn control_points(&self) -> Seq<Point3> {
        self.points@
    }

    /// The cached coefficients are those of the current points and basis.
    pub closed spec fn wf(&self) -> bool {
        forall|i: int| 0 <= i < 4 ==> row_matches(#[trigger] self.cached@[i], self.basis, i, self.points@)
    }

    /// A segment over the given basis.
    pub fn new(basis: Basis, p1: Point3, p2: Point3, p3: Point3, p4: Point3) -> (c: Curve)
        ensures
            c.wf(),
            c.kind() == basis,
            c.control_points() == seq![p1, p2, p3, p4],
    {
        let points = [p1, p2, p3, p4];
        let cached = rows_of(basis, &points);
        let c = Curve { basis, cached, points };
        assert(c.control_points() =~= seq![p1, p2, p3, p4]);
        c
    }

    /// A Bezier segment: it starts at `p1` and ends at `p4`.
    pub fn new_bezier(p1: Point3, p2: Point3, p3: Point3, p4: Point3) -> (c: Curve)
        ensures
            c.wf(),
            c.kind() == Basis::Bezier,
            c.control_points() == seq![p1, p2, p3, p4],
    {
        Curve::new(Basis::Bezier, p1, p2, p3, p4)
    }

    /// A segment over the B-spline matrix `(1/6) [[1,0,0,0],[-3,0,3,0],[3,-6,3,0],[-1,3,-3,1]]`.
    /// Its first row is `[1,0,0,0]`, so the weights of the four points sum to one sixth:
    /// the value is a scaled blend, not a point of the control points' hull.
    pub fn new_bspline(p1: Point3, p2: Point3, p3: Point3, p4: Point3) -> (c: Curve)
        ensures
            c.wf(),
            c.kind() == Basis::BSpline,
            c.control_points() == seq![p1, p2, p3, p4],
    {
        Curve::new(Basis::BSpline, p1, p2, p3, p4)
    }

    /// The basis of the segment.
    pub fn basis(&self) -> (b: Basis)
        ensures
            b == self.kind(),
    {
        self.basis
    }

    /// Control point `index`.
    pub fn control_point(&self, index: usize) -> (p: Point3)
        requires
            index < 4,
        ensures
            p == self.control_points()[index as int],
    {
        self.points[index]
    }

    /// The point of the segment at parameter `t`: `[1, t, t^2, t^3]` times the cached
    /// coefficients, exactly, for any `t` (also outside `[0, 1]`).
    pub fn get_point(&self, t: Param) -> (r: RatPoint)
        requires
            self.wf(),
            t.valid(),
        ensures
            r.den > 0,
            is_value_at(r, self.kind(), self.control_points(), t.num as int, t.den as int),
    {
        let n = t.num as i128;
        let d = t.den as i128;
        proof {
            lemma_mul_bound(d as int, d as int, 0x1_0000, 0x1_0000);
            lemma_mul_bound(d * d, d as int, 0x1_0000_0000, 0x1_0000);
            lemma_mul_bound(n as int, d * d, 0x4000_0000, 0x1_0000_0000);
            lemma_mul_bound(n as int, n as int, 0x4000_0000, 0x4000_0000);
            lemma_mul_bound(n * n, d as int, 0x1000_0000_0000_0000, 0x1_0000);
            lemma_mul_bound(n * n, n as int, 0x1000_0000_0000_0000, 0x4000_0000);
        }
        let d2 = d * d;
        let d3 = d2 * d;
        let nd2 = n * d2;
        let n2 = n * n;
        let n2d = n2 * d;
        let n3 = n2 * n;
        let k = self.cached;
        let ghost pts = self.points@;
        proof {
            assert(row_matches(k@[0], self.basis, 0, pts));
            assert(row_matches(k@[1], self.basis, 1, pts));
            assert(row_matches(k@[2], self.basis, 2, pts));
            assert(row_matches(k@[3], self.basis, 3, pts));
            let b = self.basis;
            let xs = (pts[0].x as int, pts[1].x as int, pts[2].x as int, pts[3].x as int);
            let ys = (pts[0].y as int, pts[1].y as int, pts[2].y as int, pts[3].y as int);
            let zs = (pts[0].z as int, pts[1].z as int, pts[2].z as int, pts[3].z as int);
            lemma_coeff_bound(b, 0, xs.0, xs.1, xs.2, xs.3);
            lemma_coeff_bound(b, 1, xs.0, xs.1, xs.2, xs.3);
            lemma_coeff_bound(b, 2, xs.0, xs.1, xs.2, xs.3);
            lemma_coeff_bound(b, 3, xs.0, xs.1, xs.2, xs.3);
            lemma_coeff_bound(b, 0, ys.0, ys.1, ys.2, ys.3);
            lemma_coeff_bound(b, 1, ys.0, ys.1, ys.2, ys.3);
            lemma_coeff_bound(b, 2, ys.0, ys.1, ys.2, ys.3);
            lemma_coeff_bound(b, 3, ys.0, ys.1, ys.2, ys.3);
            lemma_coeff_bound(b, 0, zs.0, zs.1, zs.2, zs.3);
            lemma_coeff_bound(b, 1, zs.0, zs.1, zs.2, zs.3);
            lemma_coeff_bound(b, 2, zs.0, zs.1, zs.2, zs.3);
            lemma_coeff_bound(b, 3, zs.0, zs.1, zs.2, zs.3);
            lemma_power_form(b, n as int, d as int, xs.0, xs.1, xs.2, xs.3, k@[0].x as int, k@[1].x as int, k@[2].x as int, k@[3].x as int);
            lemma_power_form(b, n as int, d as int, ys.0, ys.1, ys.2, ys.3, k@[0].y as int, k@[1].y as int, k@[2].y as int, k@[3].y as int);
            lemma_power_form(b, n as int, d as int, zs.0, zs.1, zs.2, zs.3, k@[0].z as int, k@[1].z as int, k@[2].z as int, k@[3].z as int);
        }
        let x = combine(d3, nd2, n2d, n3, k[0].x, k[1].x, k[2].x, k[3].x);
        let y = combine(d3, nd2, n2d, n3, k[0].y, k[1].y, k[2].y, k[3].y);
        let z = combine(d3, nd2, n2d, n3, k[0].z, k[1].z, k[2].z, k[3].z);
        proof {
            vstd::arithmetic::mul::lemma_mul_strictly_positive(d as int, d as int);
            vstd::arithmetic::mul::lemma_mul_strictly_positive(d * d, d as int);
        }
        let den = match self.basis {
            Basis::Bezier => d3,
            Basis::BSpline => 6 * d3,
        };
        RatPoint { x, y, z, den }
    }

    /// Replaces control point `index` and recomputes the cached coefficients.
    pub fn set_control_point(&mut self, index: usize, p: Point3)
        requires
            old(self).wf(),
            index < 4,
        ensures
            final(self).wf(),
            final(self).kind() == old(self).kind(),
            final(self).control_points() == old(self).control_points().update(index as int, p),
    {
        let mut points = self.points;
        points[index] = p;
        self.cached = rows_of(self.basis, &points);
        self.points = points;
        assert(self.points@ =~= old(self).points@.update(index as int, p));
    }
}

/// Why a list of points does not make a Bezier chain.
#[derive(Clone, Copy, Debug, PartialEq, Eq, Structural)]
pub enum SplineError {
    /// The list is empty.
    NoPoints,
    /// The list has one to three points; the count is carried.
    TooFewPoints(usize),
    /// The list has four points or more, but not `3k + 1` of them; the count is carried.
    InvalidCount(usize),
}

/// The number of segments of a chain of `n` points.
pub open spec fn segment_count_for(n: int) -> int {
    (n - 4) / 3 + 1
}

/// `n` points make a Bezier chain: four to start, then three per further segment.
pub open spec fn valid_point_count(n: int) -> bool {
    n >= 4 && n % 3 == 1
}

/// Segment `i` of the chain over `pts` has points `3i .. 3i + 3`.
pub open spec fn segment_of(c: Curve, pts: Seq<Point3>, i: int) -> bool {
    &&& c.wf()
    &&& c.kind() == Basis::Bezier
    &&& c.control_points() == pts.subrange(3 * i, 3 * i + 4)
}

/// The segment that carries chain parameter `n / d`: `floor(n / d)`, pinned to
/// `[0, count - 1]`.
pub open spec fn segment_index(count: int, n: int, d: int) -> int {
    let f = n / d;
    if f < 0 {
        0
    } else if f >= count {
        count - 1
    } else {
        f
    }
}

/// A chain of Bezier segments, each one starting where the one before it ends.
#[derive(Debug)]
pub struct Spline {
    curves: Vec<Curve>,
}

impl Spline {
    /// The segments, in order.
    pub closed spec fn segments(&self) -> Seq<Curve> {
        self.curves@
    }

    /// At least one segment; every segment is a well-formed Bezier segment; consecutive
    /// segments share their joint.
    pub open spec fn wf(&self) -> bool {
        &&& self.segments().len() >= 1
        &&& forall|i: int|
            0 <= i < self.segments().len() ==> (#[trigger] self.segments()[i]).wf()
                && self.segments()[i].kind() == Basis::Bezier
        &&& forall|i: int|
            1 <= i < self.segments().len() ==> (#[trigger] self.segments()[i]).control_points()[0]
                == self.segments()[i - 1].control_points()[3]
    }

    /// `r` is the point of the chain at parameter `n / d`.
    pub open spec fn value_is(&self, r: RatPoint, n: int, d: int) -> bool {
        let i = segment_index(self.segments().len() as int, n, d);
        is_value_at(r, Basis::Bezier, self.segments()[i].control_points(), n - i * d, d)
    }

    /// The chain through `points`: segment `i` has points `3i .. 3i + 3`.
    pub fn new_bezier(points: Vec<Point3>) -> (r: Result<Spline, SplineError>)
        ensures
            points@.len() == 0 <==> r == Err::<Spline, SplineError>(SplineError::NoPoints),
            1 <= points@.len() < 4 <==> r == Err::<Spline, SplineError>(
                SplineError::TooFewPoints(points.len()),
            ),
            points@.len() >= 4 && points@.len() % 3 != 1 <==> r == Err::<Spline, SplineError>(
                SplineError::InvalidCount(points.len()),
            ),
            valid_point_count(points@.len() as int) <==> r is Ok,
            r matches Ok(s) ==> {
                &&& s.wf()
                &&& s.segments().len() == segment_count_for(points@.len() as int)
                &&& forall|i: int|
                    0 <= i < s.segments().len() ==> segment_of(
                        #[trigger] s.segments()[i],
                        points@,
                        i,
                    )
            },
    {
        let n = points.len();
        if n == 0 {
            return Err(SplineError::NoPoints);
        }
        if n < 4 {
            return Err(SplineError::TooFewPoints(n));
        }
        if n % 3 != 1 {
            return Err(SplineError::InvalidCount(n));
        }
        let num_curves = (n - 4) / 3 + 1;
        let mut curves: Vec<Curve> = Vec::new();
        let mut i: usize = 0;
        while i < num_curves
            invariant
                n == points@.len(),
                n >= 4,
                n % 3 == 1,
                num_curves == segment_count_for(n as int),
                i <= num_curves,
                curves@.len() == i,
                forall|j: int| 0 <= j < i ==> segment_of(#[trigger] curves@[j], points@, j),
            decreases num_curves - i,
        {
            let c = Curve::new_bezier(
                points[3 * i],
                points[3 * i + 1],
                points[3 * i + 2],
                points[3 * i + 3],
            );
            assert(c.control_points() =~= points@.subrange(3 * i as int, 3 * i as int + 4));
            curves.push(c);
            i = i + 1;
        }
        let s = Spline { curves };
        assert forall|j: int| 1 <= j < s.segments().len() implies (#[trigger] s.segments()[j]).control_points()[0]
            == s.segments()[j - 1].control_points()[3] by {
            assert(segment_of(s.segments()[j], points@, j));
            assert(segment_of(s.segments()[j - 1], points@, j - 1));
        }
        Ok(s)
    }

    /// The number of segments.
    pub fn size(&self) -> (r: usize)
        ensures
            r == self.segments().len(),
    {
        self.curves.len()
    }

    /// The point of the chain at parameter `t`: segment `floor(t)`, pinned to the first or
    /// last segment when `t` falls outside `[0, size)`, at the local parameter
    /// `t - index`. Outside the chain's range the pinned segment's polynomial extrapolates.
    pub fn get_point(&self, t: Param) -> (r: RatPoint)
        requires
            self.wf(),
            t.valid(),
        ensures
            r.den > 0,
            self.value_is(r, t.num as int, t.den as int),
    {
        let count = self.curves.len();
        let n = t.num as i64;
        let d = t.den as i64;
        let ghost gi = segment_index(count as int, n as int, d as int);
        let index: usize = if n < 0 {
            0
        } else {
            let f = n / d;
            assert(f as int == n as int / d as int);
            let fu = f as usize;
            if fu >= count {
                count - 1
            } else {
                fu
            }
        };
        proof {
            if n >= 0 {
                vstd::arithmetic::div_mod::lemma_fundamental_div_mod(n as int, d as int);
                let f = n as int / d as int;
                assert(0 <= index <= f);
                vstd::arithmetic::mul::lemma_mul_inequality(index as int, f, d as int);
                vstd::arithmetic::mul::lemma_mul_is_commutative(f, d as int);
                assert(index * d <= n);
                if f < count {
                    assert(n - index * d < d);
                }
            } else {
                assert(n / d < 0) by {
                    vstd::arithmetic::div_mod::lemma_fundamental_div_mod(n as int, d as int);
                }
            }
        }
        assert(index == gi);
        let local = Param { num: (n - (index as i64) * d) as i32, den: t.den };
        assert(self.segments()[index as int].wf());
        self.curves[index].get_point(local)
    }
}

/// The Bezier weights at parameter zero and at parameter one.
proof fn lemma_bezier_weights_at_ends(d: int)
    ensures
        weight(Basis::Bezier, 0, 0, d) == d * d * d,
        weight(Basis::Bezier, 1, 0, d) == 0,
        weight(Basis::Bezier, 2, 0, d) == 0,
        weight(Basis::Bezier, 3, 0, d) == 0,
        weight(Basis::Bezier, 0, d, d) == 0,
        weight(Basis::Bezier, 1, d, d) == 0,
        weight(Basis::Bezier, 2, d, d) == 0,
        weight(Basis::Bezier, 3, d, d) == d * d * d,
{
    let z: int = 0;
    assert(3 * z * d * d == 0) by (nonlinear_arith) requires z == 0;
    assert(3 * z * z * d == 0) by (nonlinear_arith) requires z == 0;
    assert(z * z * z == 0) by (nonlinear_arith) requires z == 0;
    assert(3 * d * z * z == 0) by (nonlinear_arith) requires z == 0;
    assert(3 * d * d * z == 0) by (nonlinear_arith) requires z == 0;
}

/// A Bezier segment passes through its first control point at parameter zero, whatever
/// denominator the parameter is written with.
pub proof fn lemma_bezier_start(c: &Curve, d: int, r: RatPoint)
    requires
        c.kind() == Basis::Bezier,
        d > 0,
        is_value_at(r, Basis::Bezier, c.control_points(), 0, d),
    ensures
        r.denotes(c.control_points()[0]),
{
    lemma_bezier_weights_at_ends(d);
    let d3 = d * d * d;
    let p = c.control_points()[0];
    vstd::arithmetic::mul::lemma_mul_is_commutative(d3, p.x as int);
    vstd::arithmetic::mul::lemma_mul_is_commutative(d3, p.y as int);
    vstd::arithmetic::mul::lemma_mul_is_commutative(d3, p.z as int);
}

/// A Bezier segment passes through its last control point at parameter one, whatever
/// denominator the parameter is written with.
pub proof fn lemma_bezier_end(c: &Curve, d: int, r: RatPoint)
    requires
        c.kind() == Basis::Bezier,
        d > 0,
        is_value_at(r, Basis::Bezier, c.control_points(), d, d),
    ensures
        r.denotes(c.control_points()[3]),
{
    lemma_bezier_weights_at_ends(d);
    let d3 = d * d * d;
    let p = c.control_points()[3];
    vstd::arithmetic::mul::lemma_mul_is_commutative(d3, p.x as int);
    vstd::arithmetic::mul::lemma_mul_is_commutative(d3, p.y as int);
    vstd::arithmetic::mul::lemma_mul_is_commutative(d3, p.z as int);
}

/// A chain is continuous at every inner joint `k`: the segment before the joint ends, at
/// its parameter one, exactly at the chain's point for parameter `k`, the start of
/// segment `k`.
pub proof fn lemma_joint_continuity(s: &Spline, k: int, d: int, r_end: RatPoint, r_chain: RatPoint)
    requires
        s.wf(),
        1 <= k < s.segments().len(),
        d > 0,
        is_value_at(r_end, Basis::Bezier, s.segments()[k - 1].control_points(), d, d),
        s.value_is(r_chain, k * d, d),
    ensures
        r_end == r_chain,
{
    vstd::arithmetic::div_mod::lemma_div_by_multiple(k, d);
    assert(segment_index(s.segments().len() as int, k * d, d) == k);
    let prev = s.segments()[k - 1];
    let next = s.segments()[k];
    assert(next.control_points()[0] == prev.control_points()[3]);
    lemma_bezier_end(&prev, d, r_end);
    assert(is_value_at(r_chain, Basis::Bezier, next.control_points(), 0, d));
    lemma_bezier_start(&next, d, r_chain);
}

/// A chain saturates: below zero it extends its first segment's polynomial, at or past
/// `size` its last segment's, at the parameter shifted to that segment.
pub proof fn lemma_saturation(s: &Spline, n: int, d: int, r: RatPoint)
    requires
        s.wf(),
        d > 0,
    ensures
        n < 0 ==> (s.value_is(r, n, d) <==> is_value_at(
            r,
            Basis::Bezier,
            s.segments()[0].control_points(),
            n,
            d,
        )),
        n >= s.segments().len() * d ==> (s.value_is(r, n, d) <==> is_value_at(
            r,
            Basis::Bezier,
            s.segments()[s.segments().len() - 1].control_points(),
            n - (s.segments().len() - 1) * d,
            d,
        )),
{
    let count = s.segments().len() as int;
    vstd::arithmetic::div_mod::lemma_fundamental_div_mod(n, d);
    if n < 0 {
        assert(n / d < 0) by (nonlinear_arith)
            requires
                n == d * (n / d) + n % d,
                0 <= n % d < d,
                n < 0,
        ;
    }
    if n >= count * d {
        assert(n / d >= count) by (nonlinear_arith)
            requires
                n == d * (n / d) + n % d,
                0 <= n % d < d,
                n >= count * d,
                d > 0,
        ;
    }
}

/// Replacing control point two of a Bezier segment leaves its end (parameter one) where it
/// was, and moves its midpoint (parameter one half) exactly when the new point differs.
pub proof fn lemma_replace_point_two(
    before: &Curve,
    after: &Curve,
    p: Point3,
    d: int,
    end_before: RatPoint,
    end_after: RatPoint,
    mid_before: RatPoint,
    mid_after: RatPoint,
)
    requires
        before.kind() == Basis::Bezier,
        after.kind() == Basis::Bezier,
        after.control_points() == before.control_points().update(2, p),
        d > 0,
        is_value_at(end_before, Basis::Bezier, before.control_points(), d, d),
        is_value_at(end_after, Basis::Bezier, after.control_points(), d, d),
        is_value_at(mid_before, Basis::Bezier, before.control_points(), 1, 2),
        is_value_at(mid_after, Basis::Bezier, after.control_points(), 1, 2),
    ensures
        end_before == end_after,
        mid_before == mid_after <==> p == before.control_points()[2],
{
    lemma_bezier_weights_at_ends(d);
    let b = before.control_points();
    let a = after.control_points();
    assert(a[0] == b[0] && a[1] == b[1] && a[3] == b[3] && a[2] == p);
    assert(weight(Basis::Bezier, 0, 1, 2) == 1);
    assert(weight(Basis::Bezier, 1, 1, 2) == 3);
    assert(weight(Basis::Bezier, 2, 1, 2) == 3);
    assert(weight(Basis::Bezier, 3, 1, 2) == 1);
    if mid_before == mid_after {
        assert(p.x == b[2].x && p.y == b[2].y && p.z == b[2].z);
    }
}

} // verus!
