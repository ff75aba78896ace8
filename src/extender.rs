//! Procedural extension of a path: each step picks a new anchor at a random distance
//! along a heading, and mirrors the aim point through it to keep the path smooth.
use vstd::prelude::*;

use crate::geometry::{Point2, Point3};
use crate::spline::{Basis, Curve};

verus! {

/// Radii are drawn below this bound.
pub const NEW_POINT_GEN_RADIUS: u64 = 300;

/// Radii are drawn as `u^(1/5)` for `u` uniform below `300^5`.
pub const RADIUS_DRAW_BOUND: u64 = 2430000000000;

/// Headings are fixed-point: a component `c` stands for `c / HEADING_SCALE`.
pub const HEADING_SCALE: i64 = 65536;

/// The largest magnitude of an anchor, aim point or step coordinate, so that the mirrored
/// handle of a step fits in 32 bits.
pub const COORD_LIMIT: i32 = 268435456;

/// The shape exponent of the radius law, applied to `r`.
pub open spec fn shape_power(r: int) -> int {
    r * r * r * r * r
}

/// `r` is the integer root of the draw `u`: the largest `r` whose power is at most `u`.
pub open spec fn is_radius_of(r: int, u: int) -> bool {
    &&& 0 <= r
    &&& shape_power(r) <= u < shape_power(r + 1)
}

/// Relies on rand's `Rng::gen_range` over `0..bound` on the thread generator: the value
/// returned lies in the range. It panics on an empty range, which `bound > 0` excludes.
#[verifier::external_body]
fn draw_below(bound: u64) -> (r: u64)
    requires
        bound > 0,
    ensures
        r < bound,
{
    rand::Rng::gen_range(&mut rand::thread_rng(), 0..bound)
}

/// `r^5`, exactly, for `r` below `2^13`.
fn shape_power_exec(r: u64) -> (p: u128)
    requires
        r <= 8192,
    ensures
        p == shape_power(r as int),
{
    let r = r as u128;
    proof {
        assert(r * r <= 0x400_0000) by (nonlinear_arith)
            requires
                r <= 8192,
        ;
        assert(r * r * r <= 0x80_0000_0000) by (nonlinear_arith)
            requires
                r <= 8192,
        ;
        assert(r * r * r * r <= 0x100_0000_0000_0000) by (nonlinear_arith)
            requires
                r <= 8192,
        ;
        assert(r * r * r * r * r <= 0x2_0000_0000_0000_0000) by (nonlinear_arith)
            requires
                r <= 8192,
        ;
    }
    r * r * r * r * r
}

/// The radius for the draw `u`: its integer fifth root.
pub fn radius_from_draw(u: u64) -> (r: u64)
    ensures
        is_radius_of(r as int, u as int),
{
    let mut lo: u64 = 0;
    let mut hi: u64 = 8192;
    assert(shape_power(8192) == 0x2_0000_0000_0000_0000);
    while hi - lo > 1
        invariant
            lo < hi <= 8192,
            shape_power(lo as int) <= u < shape_power(hi as int),
        decreases hi - lo,
    {
        let mid = lo + (hi - lo) / 2;
        if shape_power_exec(mid) <= u as u128 {
            lo = mid;
        } else {
            hi = mid;
        }
    }
    lo
}

/// A radius drawn by the power law: `u` uniform below `RADIUS_DRAW_BOUND`, then its
/// fifth root. Long steps are far more likely than short ones.
pub fn sample_radius() -> (r: u64)
    ensures
        r < NEW_POINT_GEN_RADIUS,
        exists|u: int| 0 <= u < RADIUS_DRAW_BOUND && is_radius_of(r as int, u),
{
    let u = draw_below(RADIUS_DRAW_BOUND);
    let r = radius_from_draw(u);
    proof {
        lemma_radius_below_bound(r as int, u as int);
    }
    r
}

/// `shape_power` is monotonic on the naturals.
proof fn lemma_shape_power_monotonic(a: int, b: int)
    requires
        0 <= a <= b,
    ensures
        shape_power(a) <= shape_power(b),
{
    assert(a * a <= b * b) by (nonlinear_arith)
        requires
            0 <= a <= b,
    ;
    assert(a * a * a <= b * b * b) by (nonlinear_arith)
        requires
            0 <= a <= b,
            a * a <= b * b,
    ;
    assert(a * a * a * a <= b * b * b * b) by (nonlinear_arith)
        requires
            0 <= a <= b,
            a * a * a <= b * b * b,
    ;
    assert(a * a * a * a * a <= b * b * b * b * b) by (nonlinear_arith)
        requires
            0 <= a <= b,
            a * a * a * a <= b * b * b * b,
    ;
}

proof fn lemma_radius_below_bound(r: int, u: int)
    requires
        is_radius_of(r, u),
        u < RADIUS_DRAW_BOUND,
    ensures
        r < NEW_POINT_GEN_RADIUS,
{
    if r >= 300 {
        lemma_shape_power_monotonic(300, r);
        assert(shape_power(300) == RADIUS_DRAW_BOUND);
    }
}

/// The radius law favours long steps: every draw in the upper half of the draw range
/// gives a radius above half the largest radius, so the median radius exceeds it.
pub proof fn lemma_radius_upper_half(r: int, u: int)
    requires
        is_radius_of(r, u),
        RADIUS_DRAW_BOUND / 2 <= u < RADIUS_DRAW_BOUND,
    ensures
        r > NEW_POINT_GEN_RADIUS / 2,
{
    if r <= 150 {
        lemma_shape_power_monotonic(r + 1, 151);
        assert(shape_power(151) < RADIUS_DRAW_BOUND / 2);
    }
}

/// A fixed-point direction: `(cos / HEADING_SCALE, sin / HEADING_SCALE)`.
#[derive(Clone, Copy, Debug, PartialEq, Eq, Structural)]
pub struct Heading {
    pub cos: i32,
    pub sin: i32,
}

impl Heading {
    pub open spec fn valid(&self) -> bool {
        &&& -HEADING_SCALE <= self.cos <= HEADING_SCALE
        &&& -HEADING_SCALE <= self.sin <= HEADING_SCALE
    }
}

/// `v / HEADING_SCALE`, rounded toward zero.
pub open spec fn unscale(v: int) -> int {
    if v >= 0 {
        v / HEADING_SCALE as int
    } else {
        -((-v) / HEADING_SCALE as int)
    }
}

fn unscale_exec(v: i64) -> (r: i32)
    requires
        -0x1000_0000_0000 <= v <= 0x1000_0000_0000,
    ensures
        r == unscale(v as int),
        -COORD_LIMIT <= r <= COORD_LIMIT,
{
    if v >= 0 {
        proof {
            vstd::arithmetic::div_mod::lemma_div_is_ordered(v as int, 0x1000_0000_0000, 65536);
            vstd::arithmetic::div_mod::lemma_div_pos_is_pos(v as int, 65536);
        }
        (v / HEADING_SCALE) as i32
    } else {
        proof {
            vstd::arithmetic::div_mod::lemma_div_is_ordered(-v, 0x1000_0000_0000, 65536);
            vstd::arithmetic::div_mod::lemma_div_pos_is_pos(-v, 65536);
        }
        -(((-v) / HEADING_SCALE) as i32)
    }
}

/// The displacement of a step of length `r` along `heading`, each component rounded
/// toward zero.
pub open spec fn step_of(r: int, heading: Heading) -> Point2 {
    Point2 { x: unscale(r * heading.cos) as i32, y: unscale(r * heading.sin) as i32 }
}

/// The displacement of a step of length `radius` along `heading`, each component rounded
/// toward zero.
pub fn step_toward(radius: u64, heading: Heading) -> (s: Point2)
    requires
        heading.valid(),
        radius <= COORD_LIMIT,
    ensures
        s == step_of(radius as int, heading),
        s.x == unscale(radius * heading.cos),
        s.y == unscale(radius * heading.sin),
        -COORD_LIMIT <= s.x <= COORD_LIMIT,
        -COORD_LIMIT <= s.y <= COORD_LIMIT,
{
    let r = radius as i64;
    proof {
        assert(-(r * HEADING_SCALE) <= r * heading.cos <= r * HEADING_SCALE) by (nonlinear_arith)
            requires
                0 <= r,
                -HEADING_SCALE <= heading.cos <= HEADING_SCALE,
        ;
        assert(-(r * HEADING_SCALE) <= r * heading.sin <= r * HEADING_SCALE) by (nonlinear_arith)
            requires
                0 <= r,
                -HEADING_SCALE <= heading.sin <= HEADING_SCALE,
        ;
        assert(r * HEADING_SCALE <= COORD_LIMIT * HEADING_SCALE) by (nonlinear_arith)
            requires
                0 <= r <= COORD_LIMIT,
        ;
    }
    let x = unscale_exec(r * heading.cos as i64);
    let y = unscale_exec(r * heading.sin as i64);
    Point2 { x, y }
}

/// The anchor reached from `last` by the displacement `step`.
pub open spec fn next_anchor(last: Point3, step: Point2) -> Point3 {
    Point3 { x: (last.x + step.x) as i32, y: (last.y + step.y) as i32, z: last.z }
}

/// The reflection of `aim` through `anchor`: `2 * anchor - aim`.
pub open spec fn mirror(anchor: Point3, aim: Point3) -> Point3 {
    Point3 {
        x: (2 * anchor.x - aim.x) as i32,
        y: (2 * anchor.y - aim.y) as i32,
        z: (2 * anchor.z - aim.z) as i32,
    }
}

/// Every coordinate lies within `COORD_LIMIT`.
pub open spec fn within_limit(p: Point3) -> bool {
    &&& -COORD_LIMIT <= p.x <= COORD_LIMIT
    &&& -COORD_LIMIT <= p.y <= COORD_LIMIT
    &&& -COORD_LIMIT <= p.z <= COORD_LIMIT
}

/// Whether every coordinate of `p` lies within `COORD_LIMIT`.
pub fn is_within_limit(p: Point3) -> (r: bool)
    ensures
        r == within_limit(p),
{
    -COORD_LIMIT <= p.x && p.x <= COORD_LIMIT && -COORD_LIMIT <= p.y && p.y <= COORD_LIMIT
        && -COORD_LIMIT <= p.z && p.z <= COORD_LIMIT
}

/// The state that carries a path from one generated segment to the next: the anchor the
/// next segment starts from.
#[derive(Clone, Copy, Debug, PartialEq, Eq, Structural)]
pub struct ProceduralExtender {
    pub last_anchor: Point3,
}

impl ProceduralExtender {
    /// The segment from the last anchor to the anchor `step` away from it. Its control
    /// points are the last anchor, the `outgoing` handle of the previous step, the
    /// reflection of `aim` through the new anchor, and the new anchor, which becomes the
    /// last anchor.
    pub fn extend_with(&mut self, outgoing: Point3, aim: Point3, step: Point2) -> (c: Curve)
        requires
            within_limit(old(self).last_anchor),
            within_limit(aim),
            -COORD_LIMIT <= step.x <= COORD_LIMIT,
            -COORD_LIMIT <= step.y <= COORD_LIMIT,
        ensures
            final(self).last_anchor == next_anchor(old(self).last_anchor, step),
            c.wf(),
            c.kind() == Basis::Bezier,
            c.control_points() == seq![
                old(self).last_anchor,
                outgoing,
                mirror(final(self).last_anchor, aim),
                final(self).last_anchor,
            ],
    {
        let last = self.last_anchor;
        let anchor = Point3 { x: last.x + step.x, y: last.y + step.y, z: last.z };
        let handle = Point3 {
            x: 2 * anchor.x - aim.x,
            y: 2 * anchor.y - aim.y,
            z: 2 * anchor.z - aim.z,
        };
        self.last_anchor = anchor;
        Curve::new_bezier(last, outgoing, handle, anchor)
    }

    /// A segment to a new anchor at a power-law distance along `heading`, as
    /// `extend_with` makes it for the radius drawn.
    pub fn extend(&mut self, outgoing: Point3, aim: Point3, heading: Heading) -> (c: Curve)
        requires
            within_limit(old(self).last_anchor),
            within_limit(aim),
            heading.valid(),
        ensures
            exists|r: int|
                0 <= r < NEW_POINT_GEN_RADIUS && final(self).last_anchor == next_anchor(
                    old(self).last_anchor,
                    #[trigger] step_of(r, heading),
                ),
            c.wf(),
            c.kind() == Basis::Bezier,
            c.control_points() == seq![
                old(self).last_anchor,
                outgoing,
                mirror(final(self).last_anchor, aim),
                final(self).last_anchor,
            ],
    {
        let radius = sample_radius();
        let step = step_toward(radius, heading);
        let c = self.extend_with(outgoing, aim, step);
        assert(0 <= radius < NEW_POINT_GEN_RADIUS);
        c
    }
}

} // verus!
