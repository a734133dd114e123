//! Motion state, position integration, and the proximity collision gate.
//!
//! A proposed move is committed whole or discarded whole, by comparing the
//! squared Euclidean distance from the candidate position to every collider
//! against the squared collision radius. No box intersection, no sliding.

use vstd::prelude::*;

use crate::fixed::Vec3Fix;
use crate::fixed::WORLD_LIMIT;
use crate::fixed::lemma_mul_le;

verus! {

/// Collision radius: 26 world units, centre to centre.
pub const COLLISION_RADIUS_MILLI: i64 = 26_000;

/// The squared collision radius, in squared milli-units.
pub const COLLISION_RADIUS_SQ: i64 = 676_000_000;

/// Largest velocity component (milli-units per second) the integration step
/// accepts.
pub const VEL_LIMIT: i64 = 1_000_000_000_000;

/// Largest numerator and denominator accepted for the per-tick delta time,
/// a rational number of seconds.
pub const DT_MAX: u64 = 1_000_000;

/// Per-actor motion data. `rotation` takes no part in the logic; `grounded`
/// gates lateral movement and jumps.
#[derive(Clone, Copy, Debug, PartialEq, Eq, Structural)]
pub struct MotionState {
    pub position: Vec3Fix,
    pub velocity: Vec3Fix,
    pub rotation: i64,
    pub grounded: bool,
}

/// A candidate position is clear of the field exactly when every collider is
/// at distance at least the collision radius (compared on squared distances,
/// which is exact on these integers).
pub open spec fn clear_of_field(candidate: Vec3Fix, field: Seq<Vec3Fix>) -> bool {
    forall|k: int|
        0 <= k < field.len() ==> #[trigger] field[k].dist_sq(candidate) >= COLLISION_RADIUS_SQ
}

/// `v` scaled by the non-negative rational `num / den`, truncating toward
/// zero (the magnitude is scaled with Euclidean division, then the sign is
/// put back).
pub open spec fn scale_trunc(v: int, num: int, den: int) -> int
    recommends
        den > 0,
{
    if v >= 0 {
        (v * num) / den
    } else {
        -(((-v) * num) / den)
    }
}

/// Scaling by `num / den` with `num <= den` never grows a bounded magnitude.
pub proof fn lemma_scale_trunc_bound(v: int, num: int, den: int, bound: int)
    requires
        0 < den,
        0 <= num <= den,
        -bound <= v <= bound,
        0 <= bound,
    ensures
        -bound <= scale_trunc(v, num, den) <= bound,
{
    if v >= 0 {
        assert((v * num) / den <= v && 0 <= (v * num) / den) by (nonlinear_arith)
            requires
                0 <= v,
                0 <= num <= den,
                0 < den,
        ;
    } else {
        assert(((-v) * num) / den <= -v && 0 <= ((-v) * num) / den) by (nonlinear_arith)
            requires
                0 <= -v,
                0 <= num <= den,
                0 < den,
        ;
    }
}

/// One component of the integration step: the velocity component scaled by
/// the tick's delta time, truncating toward zero.
fn scale_component(c: i64, dt_num: u64, dt_den: u64) -> (r: i64)
    requires
        1 <= dt_den,
        dt_num <= DT_MAX,
        -VEL_LIMIT <= c <= VEL_LIMIT,
    ensures
        r == scale_trunc(c as int, dt_num as int, dt_den as int),
{
    if c >= 0 {
        proof {
            lemma_mul_le(c as int, dt_num as int, VEL_LIMIT as int, DT_MAX as int);
            assert((c as int * dt_num as int) / (dt_den as int) <= c as int * dt_num as int)
                by (nonlinear_arith)
                requires
                    0 <= c as int * dt_num as int,
                    1 <= dt_den as int,
            ;
        }
        let m: u64 = (c as u64) * dt_num / dt_den;
        m as i64
    } else {
        proof {
            lemma_mul_le((-(c as int)) as int, dt_num as int, VEL_LIMIT as int, DT_MAX as int);
            assert(((-(c as int)) * dt_num as int) / (dt_den as int) <= (-(c as int)) * dt_num as int)
                by (nonlinear_arith)
                requires
                    0 <= (-(c as int)) * dt_num as int,
                    1 <= dt_den as int,
            ;
        }
        let neg: i64 = -c;
        let m: u64 = (neg as u64) * dt_num / dt_den;
        -(m as i64)
    }
}

/// The proposed translation for one tick: the velocity scaled by the tick's
/// delta time of `dt_num / dt_den` seconds, componentwise.
pub fn velocity_delta(velocity: Vec3Fix, dt_num: u64, dt_den: u64) -> (delta: Vec3Fix)
    requires
        1 <= dt_den,
        dt_num <= DT_MAX,
        velocity.abs_within(VEL_LIMIT as int),
    ensures
        delta.x == scale_trunc(velocity.x as int, dt_num as int, dt_den as int),
        delta.y == scale_trunc(velocity.y as int, dt_num as int, dt_den as int),
        delta.z == scale_trunc(velocity.z as int, dt_num as int, dt_den as int),
{
    Vec3Fix {
        x: scale_component(velocity.x, dt_num, dt_den),
        y: scale_component(velocity.y, dt_num, dt_den),
        z: scale_component(velocity.z, dt_num, dt_den),
    }
}

/// Propose a translated position. Pure: no state is touched.
pub fn propose_move(current: Vec3Fix, delta: Vec3Fix) -> (candidate: Vec3Fix)
    requires
        i64::MIN <= current.x + delta.x <= i64::MAX,
        i64::MIN <= current.y + delta.y <= i64::MAX,
        i64::MIN <= current.z + delta.z <= i64::MAX,
    ensures
        candidate.x == current.x + delta.x,
        candidate.y == current.y + delta.y,
        candidate.z == current.z + delta.z,
{
    Vec3Fix { x: current.x + delta.x, y: current.y + delta.y, z: current.z + delta.z }
}

/// Test a candidate position against every collider of the field. If any
/// collider lies within the collision radius the move is rejected wholesale
/// and the motion state is left exactly as it was; otherwise the full
/// proposed position is committed atomically. There is no partial or sliding
/// resolution.
pub fn commit_if_clear(motion: &mut MotionState, candidate: Vec3Fix, field: &Vec<Vec3Fix>) -> (committed: bool)
    requires
        candidate.abs_within(WORLD_LIMIT as int),
        forall|k: int|
            0 <= k < field@.len() ==> (#[trigger] field@[k]).abs_within(WORLD_LIMIT as int),
    ensures
        committed == clear_of_field(candidate, field@),
        committed ==> final(motion).position == candidate,
        !committed ==> final(motion).position == old(motion).position,
        final(motion).velocity == old(motion).velocity,
        final(motion).rotation == old(motion).rotation,
        final(motion).grounded == old(motion).grounded,
{
    let n: usize = field.len();
    let mut k: usize = 0;
    while k < n
        invariant
            k <= n,
            n == field@.len(),
            candidate.abs_within(WORLD_LIMIT as int),
            forall|j: int|
                0 <= j < field@.len() ==> (#[trigger] field@[j]).abs_within(WORLD_LIMIT as int),
            forall|j: int|
                0 <= j < k ==> #[trigger] field@[j].dist_sq(candidate) >= COLLISION_RADIUS_SQ,
        decreases n - k,
    {
        let c: Vec3Fix = field[k];
        let dx: i64 = c.x - candidate.x;
        let dy: i64 = c.y - candidate.y;
        let dz: i64 = c.z - candidate.z;
        proof {
            lemma_square_bound(dx as int, 1_000_000_000);
            lemma_square_bound(dy as int, 1_000_000_000);
            lemma_square_bound(dz as int, 1_000_000_000);
        }
        let d2: i64 = dx * dx + dy * dy + dz * dz;
        if d2 < COLLISION_RADIUS_SQ {
            proof {
                assert(field@[k as int].dist_sq(candidate) < COLLISION_RADIUS_SQ);
            }
            return false;
        }
        k += 1;
    }
    motion.position = candidate;
    true
}

/// The square of a bounded value is non-negative and bounded.
proof fn lemma_square_bound(a: int, bound: int)
    requires
        -bound <= a <= bound,
    ensures
        0 <= a * a <= bound * bound,
{
    assert(0 <= a * a <= bound * bound) by (nonlinear_arith)
        requires
            -bound <= a <= bound,
    ;
}

} // verus!
