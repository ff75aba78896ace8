//! Points with integer coordinates and rational values of curve parameters.
use vstd::prelude::*;

verus! {

/// A point in the plane.
#[derive(Clone, Copy, Debug, PartialEq, Eq, Structural)]
pub struct Point2 {
    pub x: i32,
    pub y: i32,
}

/// A point in space; the z coordinate is carried through unchanged by the plane logic.
#[derive(Clone, Copy, Debug, PartialEq, Eq, Structural)]
pub struct Point3 {
    pub x: i32,
    pub y: i32,
    pub z: i32,
}

/// The largest magnitude of a parameter numerator that evaluation accepts,
/// so that every exact intermediate value fits in 128 bits.
pub const PARAM_LIMIT: i32 = 1073741824;

/// A curve parameter `num / den`, with `den > 0`.
#[derive(Clone, Copy, Debug, PartialEq, Eq, Structural)]
pub struct Param {
    pub num: i32,
    pub den: u16,
}

impl Param {
    pub open spec fn valid(&self) -> bool {
        &&& self.den > 0
        &&& -PARAM_LIMIT <= self.num <= PARAM_LIMIT
    }
}

/// A point with rational coordinates `(x / den, y / den, z / den)`, `den > 0`.
#[derive(Clone, Copy, Debug, PartialEq, Eq, Structural)]
pub struct RatPoint {
    pub x: i128,
    pub y: i128,
    pub z: i128,
    pub den: i128,
}

impl RatPoint {
    /// The rational point denotes the integer point `p`.
    pub open spec fn denotes(&self, p: Point3) -> bool {
        &&& self.x == p.x * self.den
        &&& self.y == p.y * self.den
        &&& self.z == p.z * self.den
    }
}

} // verus!
