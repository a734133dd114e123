//! Fixed-point world geometry.
//!
//! One world unit is 1000 milli-units; every coordinate, velocity component
//! and distance in the simulation is an `i64` number of milli-units, so all
//! geometric arithmetic is exact.

use vstd::prelude::*;

verus! {

/// Upper bound kept on every world coordinate that enters a proximity test,
/// so that squared distances between any two of them stay well inside `i64`.
pub const WORLD_LIMIT: i64 = 500_000_000;

/// Products of non-negative bounded factors stay bounded.
pub proof fn lemma_mul_le(a: int, b: int, ca: int, cb: int)
    requires
        0 <= a <= ca,
        0 <= b <= cb,
    ensures
        0 <= a * b <= ca * cb,
{
    assert(0 <= a * b <= ca * cb) by (nonlinear_arith)
        requires
            0 <= a <= ca,
            0 <= b <= cb,
    ;
}

/// A 3-vector of fixed-point world coordinates (milli-units).
/// The z component is only used for draw ordering.
#[derive(Clone, Copy, Debug, PartialEq, Eq, Structural)]
pub struct Vec3Fix {
    pub x: i64,
    pub y: i64,
    pub z: i64,
}

impl Vec3Fix {
    /// Componentwise bound, used to rule out overflow in vector arithmetic.
    pub open spec fn abs_within(self, bound: int) -> bool {
        &&& -bound <= self.x <= bound
        &&& -bound <= self.y <= bound
        &&& -bound <= self.z <= bound
    }

    /// Squared Euclidean distance between two points, as a mathematical value.
    pub open spec fn dist_sq(self, other: Vec3Fix) -> int {
        let dx = self.x - other.x;
        let dy = self.y - other.y;
        let dz = self.z - other.z;
        dx * dx + dy * dy + dz * dz
    }
}

} // verus!
