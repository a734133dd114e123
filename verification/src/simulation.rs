//! One whole simulation tick, in the fixed order the game feel depends on:
//! passive damping and gated impulses first, then the collision-gated
//! all-or-nothing position commit, then the animation poll.

use vstd::prelude::*;

use crate::animation::animate_player;
use crate::animation::run_animate;
use crate::fixed::Vec3Fix;
use crate::fixed::WORLD_LIMIT;
use crate::input_control::derive_control_events;
use crate::input_control::spec_control_events;
use crate::physics::DT_MAX;
use crate::physics::MotionState;
use crate::physics::clear_of_field;
use crate::physics::commit_if_clear;
use crate::physics::lemma_scale_trunc_bound;
use crate::physics::propose_move;
use crate::physics::scale_trunc;
use crate::physics::velocity_delta;
use crate::player::ControlPlayerEvent;
use crate::player::JUMP_IMPULSE;
use crate::player::Player;
use crate::player::SPRINT_SCALE;
use crate::player::control_step;
use crate::player::control_tick;
use crate::player::lemma_control_step_effects;

verus! {

/// Largest walking speed (milli-units) the whole-tick step accepts.
pub const TICK_SPEED_MAX: u64 = 100_000;

/// Largest velocity component accepted at the start of a tick.
pub const TICK_VEL_MAX: i64 = 100_000_000;

/// Largest position component accepted at the start of a tick: together with
/// the velocity bound it keeps every candidate position within the proximity
/// test's coordinate limit.
pub const TICK_POS_MAX: i64 = 300_000_000;

/// The translation one tick proposes: the velocity scaled componentwise by
/// the tick's delta time.
pub open spec fn spec_velocity_delta(v: Vec3Fix, num: int, den: int) -> Vec3Fix {
    Vec3Fix {
        x: scale_trunc(v.x as int, num, den) as i64,
        y: scale_trunc(v.y as int, num, den) as i64,
        z: scale_trunc(v.z as int, num, den) as i64,
    }
}

/// A position translated by a delta, componentwise.
pub open spec fn spec_translated(p: Vec3Fix, d: Vec3Fix) -> Vec3Fix {
    Vec3Fix { x: (p.x + d.x) as i64, y: (p.y + d.y) as i64, z: (p.z + d.z) as i64 }
}

/// The whole tick as one mathematical step: the control step resolves the
/// key snapshot into damping and gated impulses; the velocity scaled by the
/// delta time is the proposed translation; the collision field gates the
/// commit, whole or not at all; and the animation poll runs last, over the
/// same derived events.
pub open spec fn spec_simulation_tick(
    p: Player,
    field: Seq<Vec3Fix>,
    mask: u8,
    sprint_held: bool,
    jump_pressed: bool,
    num: int,
    den: int,
    anim_delta_us: int,
) -> (Player, bool) {
    let p1 = control_step(p, mask, sprint_held, jump_pressed, num, den);
    let delta = spec_velocity_delta(p1.motion.velocity, num, den);
    let candidate = spec_translated(p1.motion.position, delta);
    let committed = clear_of_field(candidate, field);
    let p2 = if committed {
        Player {
            status: p1.status,
            facing: p1.facing,
            motion: MotionState {
                position: candidate,
                velocity: p1.motion.velocity,
                rotation: p1.motion.rotation,
                grounded: p1.motion.grounded,
            },
            speed: p1.speed,
            movements: p1.movements,
            timer: p1.timer,
            frame: p1.frame,
        }
    } else {
        p1
    };
    let p3 = run_animate(
        p2,
        spec_control_events(mask, sprint_held, jump_pressed, p.facing),
        anim_delta_us,
    );
    (p3, committed)
}

/// Run one simulation tick from a decoded key snapshot: control, then the
/// collision-gated commit of `velocity * dt`, then the animation poll.
/// Returns whether the proposed move was committed.
pub fn simulation_tick(
    p: &mut Player,
    field: &Vec<Vec3Fix>,
    mask: u8,
    sprint_held: bool,
    jump_pressed: bool,
    dt_num: u64,
    dt_den: u64,
    anim_delta_us: u64,
) -> (committed: bool)
    requires
        old(p).wf(),
        old(p).speed.walking <= TICK_SPEED_MAX,
        old(p).motion.velocity.abs_within(TICK_VEL_MAX as int),
        old(p).motion.position.abs_within(TICK_POS_MAX as int),
        1 <= dt_den <= DT_MAX,
        dt_num <= dt_den,
        anim_delta_us <= 1_000_000_000_000,
        forall|k: int|
            0 <= k < field@.len() ==> (#[trigger] field@[k]).abs_within(WORLD_LIMIT as int),
    ensures
        final(p).wf(),
        committed == spec_simulation_tick(
            *old(p),
            field@,
            mask,
            sprint_held,
            jump_pressed,
            dt_num as int,
            dt_den as int,
            anim_delta_us as int,
        ).1,
        *final(p) == spec_simulation_tick(
            *old(p),
            field@,
            mask,
            sprint_held,
            jump_pressed,
            dt_num as int,
            dt_den as int,
            anim_delta_us as int,
        ).0,
{
    let ghost vel_bound: int = TICK_VEL_MAX + old(p).speed.walking * (SPRINT_SCALE as int)
        + JUMP_IMPULSE;
    let facing0: crate::input_control::Directions = p.facing;
    control_tick(p, mask, sprint_held, jump_pressed, dt_num, dt_den);
    proof {
        lemma_control_step_effects(
            *old(p),
            mask,
            sprint_held,
            jump_pressed,
            dt_num as int,
            dt_den as int,
            TICK_VEL_MAX as int,
        );
        assert(vel_bound <= 160_200_000);
        lemma_scale_trunc_bound(
            p.motion.velocity.x as int,
            dt_num as int,
            dt_den as int,
            vel_bound,
        );
        lemma_scale_trunc_bound(
            p.motion.velocity.y as int,
            dt_num as int,
            dt_den as int,
            vel_bound,
        );
        lemma_scale_trunc_bound(
            p.motion.velocity.z as int,
            dt_num as int,
            dt_den as int,
            vel_bound,
        );
    }
    let delta: Vec3Fix = velocity_delta(p.motion.velocity, dt_num, dt_den);
    let candidate: Vec3Fix = propose_move(p.motion.position, delta);
    proof {
        assert(candidate.abs_within(WORLD_LIMIT as int));
    }
    let committed: bool = commit_if_clear(&mut p.motion, candidate, field);
    let events: Vec<ControlPlayerEvent> = derive_control_events(
        mask,
        sprint_held,
        jump_pressed,
        facing0,
    );
    animate_player(p, &events, anim_delta_us);
    committed
}

} // verus!
