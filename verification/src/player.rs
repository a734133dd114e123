//! The actor: its action state, movement gating, and per-tick control step.
//!
//! Gating rules, highest priority first: passive damping of horizontal
//! velocity while grounded; lateral walk/sprint only while grounded and only
//! for Left or Right; jump only while grounded, adding a fixed vertical
//! impulse. Unimplemented actions (Stand events, Attack) are explicit typed
//! stub failures, never silent fallthrough.

use vstd::prelude::*;

use crate::fixed::Vec3Fix;
use crate::input_control::Directions;
use crate::input_control::spec_control_events;
use crate::input_control::spec_resolve_direction;
use crate::physics::DT_MAX;
use crate::physics::MotionState;

verus! {

/// Vertical velocity added by a jump (milli-units per second).
pub const JUMP_IMPULSE: i64 = 200_000;

/// Movement scale of a walk impulse.
pub const WALK_SCALE: u64 = 300;

/// Movement scale of a sprint impulse.
pub const SPRINT_SCALE: u64 = 600;

/// Largest walking speed (milli-units) the movement step accepts.
pub const SPEED_LIMIT: u64 = 1_000_000;

/// Largest magnitude one control event can add to a velocity component:
/// `SPEED_LIMIT * SPRINT_SCALE * DT_MAX`.
pub const EVENT_IMPULSE_MAX: i64 = 600_000_000_000_000;

/// Largest velocity component accepted before applying a single event.
pub const VEL_EVENT_LIMIT: i64 = 700_000_000_000_000_000;

/// Largest velocity component accepted at the start of a control tick.
pub const VEL_BASE_LIMIT: i64 = 1_000_000_000_000;

/// Most buffered control events accepted in one tick.
pub const EVENTS_MAX: usize = 1000;

/// Interval of the sprite animation timer, in microseconds (10 Hz).
pub const ANIMATION_INTERVAL_US: u64 = 100_000;

/// What the actor is doing this tick. Exactly one is active per tick.
#[derive(Clone, Copy, Debug, PartialEq, Eq, Structural)]
pub enum PlayerAction {
    Stand { direction: Directions },
    Walk { direction: Directions },
    Sprint { direction: Directions },
    Jump { direction: Directions },
    Attack,
}

/// One buffered control event, consumed exactly once per tick.
#[derive(Clone, Copy, Debug, PartialEq, Eq, Structural)]
pub struct ControlPlayerEvent(pub PlayerAction);

/// Unimplemented action variants signal this error instead of silently
/// behaving like an adjacent case.
#[derive(Clone, Copy, Debug, PartialEq, Eq, Structural)]
pub enum ActionError {
    NotImplemented,
}

/// Walking and sprinting speeds in milli-units. Only `walking` feeds the
/// movement impulses; the walk/sprint difference is carried by the scale.
#[derive(Clone, Copy, Debug, PartialEq, Eq, Structural)]
pub struct Speed {
    pub walking: u64,
    pub sprinting: u64,
}

/// The repeating animation timer: an interval, an accumulator, and how many
/// interval boundaries the last tick crossed (supports catch-up after frame
/// drops).
#[derive(Clone, Copy, Debug, PartialEq, Eq, Structural)]
pub struct AnimationTimer {
    pub interval_us: u64,
    pub elapsed_us: u64,
    pub times_finished: u64,
}

impl AnimationTimer {
    /// A valid timer: positive bounded interval, accumulator inside it.
    pub open spec fn wf(self) -> bool {
        &&& 1 <= self.interval_us <= 1_000_000_000_000
        &&& self.elapsed_us < self.interval_us
    }

    pub fn new(interval_us: u64) -> (t: AnimationTimer)
        requires
            1 <= interval_us <= 1_000_000_000_000,
        ensures
            t == (AnimationTimer { interval_us, elapsed_us: 0u64, times_finished: 0u64 }),
            t.wf(),
    {
        AnimationTimer { interval_us, elapsed_us: 0, times_finished: 0 }
    }

    /// Advance the accumulator; `times_finished` becomes the number of
    /// interval boundaries crossed by this tick, and the accumulator wraps.
    pub fn tick(&mut self, delta_us: u64)
        requires
            old(self).wf(),
            delta_us <= 1_000_000_000_000,
        ensures
            final(self).wf(),
            final(self).interval_us == old(self).interval_us,
            final(self).times_finished == (old(self).elapsed_us + delta_us) as int / old(
                self,
            ).interval_us as int,
            final(self).elapsed_us == (old(self).elapsed_us + delta_us) as int % old(
                self,
            ).interval_us as int,
    {
        let total: u64 = self.elapsed_us + delta_us;
        self.times_finished = total / self.interval_us;
        self.elapsed_us = total % self.interval_us;
    }

    /// Whether the last tick crossed at least one interval boundary.
    pub fn just_finished(&self) -> (r: bool)
        ensures
            r == (self.times_finished >= 1),
    {
        self.times_finished >= 1
    }
}

/// One direction's movement data: its unit translation (in milli-units, so
/// the diagonals hold the nearest-milli value of one over the square root of
/// two) and its inclusive animation frame range in the sprite sheet.
#[derive(Clone, Copy, Debug, PartialEq, Eq, Structural)]
pub struct PlayerMovement {
    pub direction: Directions,
    pub translation: Vec3Fix,
    pub first_index: usize,
    pub last_index: usize,
}

/// The eight per-direction movement records, indexed by clip index.
pub struct PlayerMovements {
    pub movements: Vec<PlayerMovement>,
}

impl PlayerMovements {
    /// Well-formed table: one record per direction in clip order, a
    /// non-empty bounded frame range each, and exact unit translations on
    /// the lateral directions (which are the only ones that feed impulses).
    pub open spec fn wf(self) -> bool {
        &&& self.movements@.len() == 8
        &&& forall|i: int|
            0 <= i < 8 ==> (#[trigger] self.movements@[i]).direction.spec_clip_index() == i
        &&& forall|i: int|
            0 <= i < 8 ==> (#[trigger] self.movements@[i]).first_index
                < self.movements@[i].last_index
        &&& forall|i: int| 0 <= i < 8 ==> (#[trigger] self.movements@[i]).last_index <= 1_000_000
        &&& self.movements@[2].translation == (Vec3Fix { x: 1000i64, y: 0i64, z: 0i64 })
        &&& self.movements@[6].translation == (Vec3Fix { x: -1000i64, y: 0i64, z: 0i64 })
    }

    /// The record for one direction.
    pub open spec fn clip_of(self, direction: Directions) -> PlayerMovement {
        self.movements@[direction.spec_clip_index()]
    }
}

/// The standard movement table of the knight sprite sheet: four frames per
/// direction, one row per direction.
pub open spec fn standard_movements() -> Seq<PlayerMovement> {
    seq![
        PlayerMovement {
            direction: Directions::Up,
            translation: Vec3Fix { x: 0i64, y: 1000i64, z: 0i64 },
            first_index: 16,
            last_index: 19,
        },
        PlayerMovement {
            direction: Directions::UpRight,
            translation: Vec3Fix { x: 707i64, y: 707i64, z: 0i64 },
            first_index: 12,
            last_index: 15,
        },
        PlayerMovement {
            direction: Directions::Right,
            translation: Vec3Fix { x: 1000i64, y: 0i64, z: 0i64 },
            first_index: 8,
            last_index: 11,
        },
        PlayerMovement {
            direction: Directions::DownRight,
            translation: Vec3Fix { x: 707i64, y: -707i64, z: 0i64 },
            first_index: 4,
            last_index: 7,
        },
        PlayerMovement {
            direction: Directions::Down,
            translation: Vec3Fix { x: 0i64, y: -1000i64, z: 0i64 },
            first_index: 0,
            last_index: 3,
        },
        PlayerMovement {
            direction: Directions::DownLeft,
            translation: Vec3Fix { x: -707i64, y: -707i64, z: 0i64 },
            first_index: 28,
            last_index: 31,
        },
        PlayerMovement {
            direction: Directions::Left,
            translation: Vec3Fix { x: -1000i64, y: 0i64, z: 0i64 },
            first_index: 24,
            last_index: 27,
        },
        PlayerMovement {
            direction: Directions::UpLeft,
            translation: Vec3Fix { x: -707i64, y: 707i64, z: 0i64 },
            first_index: 20,
            last_index: 23,
        },
    ]
}

/// The one controllable actor: its motion, speeds, facing, current action,
/// movement table, animation timer and displayed sprite frame. This is the
/// explicitly passed simulation context; nothing is looked up implicitly.
pub struct Player {
    pub status: PlayerAction,
    pub facing: Directions,
    pub motion: MotionState,
    pub speed: Speed,
    pub movements: PlayerMovements,
    pub timer: AnimationTimer,
    pub frame: usize,
}

impl Player {
    pub open spec fn wf(self) -> bool {
        &&& self.movements.wf()
        &&& self.timer.wf()
        &&& self.speed.walking <= SPEED_LIMIT
        &&& self.speed.sprinting <= SPEED_LIMIT
    }
}

/// A horizontal velocity component after one tick's passive damping: a ten
/// percent decay, truncated toward zero.
pub open spec fn damp_value(v: int) -> int {
    if v >= 0 {
        v - v / 10
    } else {
        v + (-v) / 10
    }
}

/// The actor after passive damping: while grounded, the horizontal velocity
/// decays by ten percent; airborne, nothing changes. This runs every tick
/// before the gating rules, so a held key re-adds velocity afterwards.
pub open spec fn damped(p: Player) -> Player {
    if p.motion.grounded {
        Player {
            status: p.status,
            facing: p.facing,
            motion: MotionState {
                position: p.motion.position,
                velocity: Vec3Fix {
                    x: damp_value(p.motion.velocity.x as int) as i64,
                    y: p.motion.velocity.y,
                    z: p.motion.velocity.z,
                },
                rotation: p.motion.rotation,
                grounded: p.motion.grounded,
            },
            speed: p.speed,
            movements: p.movements,
            timer: p.timer,
            frame: p.frame,
        }
    } else {
        p
    }
}

/// The velocity a lateral impulse adds: speed times scale times the tick's
/// delta time of `num / den` seconds, truncated.
pub open spec fn walk_impulse(walking: int, scale: int, num: int, den: int) -> int {
    (walking * scale * num) / den
}

/// A lateral impulse is bounded by `EVENT_IMPULSE_MAX`.
pub proof fn lemma_walk_impulse_bound(walking: int, scale: int, num: int, den: int)
    requires
        0 <= walking <= SPEED_LIMIT,
        0 <= scale <= SPRINT_SCALE,
        0 <= num <= DT_MAX,
        1 <= den,
    ensures
        0 <= walk_impulse(walking, scale, num, den) <= EVENT_IMPULSE_MAX,
{
    assert(0 <= walking * scale * num <= 600_000_000_000_000) by (nonlinear_arith)
        requires
            0 <= walking <= 1_000_000,
            0 <= scale <= 600,
            0 <= num <= 1_000_000,
    ;
    assert(0 <= (walking * scale * num) / den <= walking * scale * num) by (nonlinear_arith)
        requires
            0 <= walking * scale * num,
            1 <= den,
    ;
}

/// The actor after a gated lateral impulse: velocity, facing and action
/// change; everything else is untouched.
pub open spec fn lateral_applied(
    p: Player,
    direction: Directions,
    scale: int,
    num: int,
    den: int,
    sprinting: bool,
) -> Player {
    let imp = walk_impulse(p.speed.walking as int, scale, num, den);
    let vx = if direction == Directions::Right {
        p.motion.velocity.x + imp
    } else {
        p.motion.velocity.x - imp
    };
    Player {
        status: if sprinting {
            PlayerAction::Sprint { direction }
        } else {
            PlayerAction::Walk { direction }
        },
        facing: direction,
        motion: MotionState {
            position: p.motion.position,
            velocity: Vec3Fix { x: vx as i64, y: p.motion.velocity.y, z: p.motion.velocity.z },
            rotation: p.motion.rotation,
            grounded: p.motion.grounded,
        },
        speed: p.speed,
        movements: p.movements,
        timer: p.timer,
        frame: p.frame,
    }
}

/// The actor after a grounded jump: the fixed impulse is added to the
/// vertical velocity, the actor becomes airborne, and the action becomes
/// Jump at the current facing.
pub open spec fn jump_applied(p: Player) -> Player {
    Player {
        status: PlayerAction::Jump { direction: p.facing },
        facing: p.facing,
        motion: MotionState {
            position: p.motion.position,
            velocity: Vec3Fix {
                x: p.motion.velocity.x,
                y: (p.motion.velocity.y + JUMP_IMPULSE) as i64,
                z: p.motion.velocity.z,
            },
            rotation: p.motion.rotation,
            grounded: false,
        },
        speed: p.speed,
        movements: p.movements,
        timer: p.timer,
        frame: p.frame,
    }
}

/// What one control event does to the actor. Lateral movement is permitted
/// only while grounded and only for Left or Right (other directions may
/// still reach the actor as facing intent through the event's direction but
/// add no impulse). A jump is permitted only while grounded and does not
/// consume simultaneous lateral input. Stand and Attack are unimplemented:
/// no next state exists for them.
pub open spec fn event_step(p: Player, ev: ControlPlayerEvent, num: int, den: int) -> Option<
    Player,
> {
    match ev.0 {
        PlayerAction::Walk { direction } => Some(
            if p.motion.grounded && (direction == Directions::Left || direction
                == Directions::Right) {
                lateral_applied(p, direction, WALK_SCALE as int, num, den, false)
            } else {
                p
            },
        ),
        PlayerAction::Sprint { direction } => Some(
            if p.motion.grounded && (direction == Directions::Left || direction
                == Directions::Right) {
                lateral_applied(p, direction, SPRINT_SCALE as int, num, den, true)
            } else {
                p
            },
        ),
        PlayerAction::Jump { direction: _ } => Some(
            if p.motion.grounded {
                jump_applied(p)
            } else {
                p
            },
        ),
        PlayerAction::Stand { direction: _ } => None,
        PlayerAction::Attack => None,
    }
}

/// Grounded gating of the jump: a jump event while airborne changes nothing
/// at all; a jump event while grounded adds exactly the jump impulse to the
/// vertical velocity, makes the actor airborne, and leaves position and
/// horizontal velocity untouched.
pub proof fn lemma_jump_gating(p: Player, direction: Directions, num: int, den: int)
    requires
        p.motion.velocity.y + JUMP_IMPULSE <= i64::MAX,
    ensures
        event_step(p, ControlPlayerEvent(PlayerAction::Jump { direction }), num, den) is Some,
        !p.motion.grounded ==> event_step(
            p,
            ControlPlayerEvent(PlayerAction::Jump { direction }),
            num,
            den,
        )->Some_0 == p,
        p.motion.grounded ==> {
            let q = event_step(
                p,
                ControlPlayerEvent(PlayerAction::Jump { direction }),
                num,
                den,
            )->Some_0;
            &&& q.motion.velocity.y == p.motion.velocity.y + JUMP_IMPULSE
            &&& q.motion.velocity.x == p.motion.velocity.x
            &&& q.motion.velocity.z == p.motion.velocity.z
            &&& q.motion.position == p.motion.position
            &&& !q.motion.grounded
            &&& q.status == (PlayerAction::Jump { direction: p.facing })
            &&& q.frame == p.frame
        },
{
}

/// Apply one control event to the actor; an unimplemented action (Stand,
/// Attack) returns the typed stub failure and leaves the actor untouched.
pub fn apply_control_event(
    p: &mut Player,
    ev: &ControlPlayerEvent,
    dt_num: u64,
    dt_den: u64,
) -> (r: Result<(), ActionError>)
    requires
        old(p).wf(),
        old(p).motion.velocity.abs_within(VEL_EVENT_LIMIT as int),
        dt_num <= DT_MAX,
        1 <= dt_den <= DT_MAX,
    ensures
        final(p).wf(),
        event_step(*old(p), *ev, dt_num as int, dt_den as int) matches Some(p2) ==> r is Ok
            && *final(p) == p2,
        event_step(*old(p), *ev, dt_num as int, dt_den as int) is None ==> r == Err::<
            (),
            ActionError,
        >(ActionError::NotImplemented) && *final(p) == *old(p),
{
    let action: PlayerAction = ev.0;
    match action {
        PlayerAction::Walk { direction } => {
            if p.motion.grounded && (direction == Directions::Left || direction
                == Directions::Right) {
                apply_lateral(p, direction, WALK_SCALE, dt_num, dt_den, false);
            }
            Ok(())
        },
        PlayerAction::Sprint { direction } => {
            if p.motion.grounded && (direction == Directions::Left || direction
                == Directions::Right) {
                apply_lateral(p, direction, SPRINT_SCALE, dt_num, dt_den, true);
            }
            Ok(())
        },
        PlayerAction::Jump { direction: _ } => {
            if p.motion.grounded {
                let vy: i64 = p.motion.velocity.y + JUMP_IMPULSE;
                p.motion.velocity.y = vy;
                p.motion.grounded = false;
                let f: Directions = p.facing;
                p.status = PlayerAction::Jump { direction: f };
            }
            Ok(())
        },
        PlayerAction::Stand { direction: _ } => Err(ActionError::NotImplemented),
        PlayerAction::Attack => Err(ActionError::NotImplemented),
    }
}

/// The gated lateral impulse: look the direction up in the movement table,
/// add the scaled impulse along its translation's sign, and record the new
/// facing and action.
fn apply_lateral(p: &mut Player, direction: Directions, scale: u64, dt_num: u64, dt_den: u64, sprinting: bool)
    requires
        old(p).wf(),
        old(p).motion.grounded,
        direction == Directions::Left || direction == Directions::Right,
        scale == WALK_SCALE || scale == SPRINT_SCALE,
        old(p).motion.velocity.abs_within(VEL_EVENT_LIMIT as int),
        dt_num <= DT_MAX,
        1 <= dt_den <= DT_MAX,
    ensures
        *final(p) == lateral_applied(
            *old(p),
            direction,
            scale as int,
            dt_num as int,
            dt_den as int,
            sprinting,
        ),
        final(p).wf(),
{
    proof {
        lemma_walk_impulse_bound(
            p.speed.walking as int,
            scale as int,
            dt_num as int,
            dt_den as int,
        );
        crate::fixed::lemma_mul_le(
            p.speed.walking as int,
            scale as int,
            SPEED_LIMIT as int,
            SPRINT_SCALE as int,
        );
        crate::fixed::lemma_mul_le(
            (p.speed.walking * scale) as int,
            dt_num as int,
            600_000_000,
            DT_MAX as int,
        );
    }
    let idx: usize = direction.clip_index();
    let tx: i64 = p.movements.movements[idx].translation.x;
    let imp_u: u64 = p.speed.walking * scale * dt_num / dt_den;
    let imp: i64 = imp_u as i64;
    let vx: i64 = if tx >= 0 {
        p.motion.velocity.x + imp
    } else {
        p.motion.velocity.x - imp
    };
    p.motion.velocity.x = vx;
    p.facing = direction;
    if sprinting {
        p.status = PlayerAction::Sprint { direction };
    } else {
        p.status = PlayerAction::Walk { direction };
    }
}

/// Apply the tick's passive damping: while grounded, horizontal velocity
/// decays by ten percent (truncated toward zero); airborne, nothing decays.
pub fn damp_horizontal(p: &mut Player)
    requires
        old(p).motion.velocity.abs_within(VEL_EVENT_LIMIT as int),
    ensures
        *final(p) == damped(*old(p)),
{
    if p.motion.grounded {
        let vx: i64 = p.motion.velocity.x;
        let d: i64 = if vx >= 0 {
            ((vx as u64) / 10) as i64
        } else {
            -((((-vx) as u64) / 10) as i64)
        };
        proof {
            if vx >= 0 {
                assert(0 <= (vx as int) / 10 <= vx as int) by (nonlinear_arith)
                    requires
                        vx as int >= 0,
                ;
            } else {
                assert(0 <= (-(vx as int)) / 10 <= -(vx as int)) by (nonlinear_arith)
                    requires
                        -(vx as int) >= 0,
                ;
            }
        }
        let damped_x: i64 = vx - d;
        p.motion.velocity.x = damped_x;
    }
}

/// Damping, then each buffered control event in the order received, stopping
/// at the first unimplemented action: `(actor after the events that applied,
/// whether all events were implemented)`.
pub open spec fn run_events(p: Player, evs: Seq<ControlPlayerEvent>, num: int, den: int) -> (
    Player,
    bool,
)
    decreases evs.len(),
{
    if evs.len() <= 0 {
        (p, true)
    } else {
        match event_step(p, evs[0], num, den) {
            Some(p2) => run_events(p2, evs.drop_first(), num, den),
            None => (p, false),
        }
    }
}

/// One tick of the movement state machine over the buffered events: damp
/// horizontal velocity, then apply every event in order. On the first
/// unimplemented action the events before it stay applied and the typed
/// stub failure is returned.
pub fn move_player2(
    p: &mut Player,
    events: &Vec<ControlPlayerEvent>,
    dt_num: u64,
    dt_den: u64,
) -> (r: Result<(), ActionError>)
    requires
        old(p).wf(),
        old(p).motion.velocity.abs_within(VEL_BASE_LIMIT as int),
        events@.len() <= EVENTS_MAX,
        dt_num <= DT_MAX,
        1 <= dt_den <= DT_MAX,
    ensures
        final(p).wf(),
        *final(p) == run_events(damped(*old(p)), events@, dt_num as int, dt_den as int).0,
        (r is Ok) == run_events(damped(*old(p)), events@, dt_num as int, dt_den as int).1,
        r is Err ==> r == Err::<(), ActionError>(ActionError::NotImplemented),
{
    damp_horizontal(p);
    let ghost pd = *p;
    proof {
        assert(events@.skip(0) =~= events@);
        let v = old(p).motion.velocity.x as int;
        if v >= 0 {
            assert(0 <= v / 10 <= v) by (nonlinear_arith)
                requires
                    v >= 0,
            ;
        } else {
            assert(0 <= (-v) / 10 <= -v) by (nonlinear_arith)
                requires
                    -v >= 0,
            ;
        }
    }
    let n: usize = events.len();
    let mut i: usize = 0;
    while i < n
        invariant
            i <= n,
            n == events@.len(),
            n <= EVENTS_MAX,
            dt_num <= DT_MAX,
            1 <= dt_den <= DT_MAX,
            p.wf(),
            pd == damped(*old(p)),
            p.motion.velocity.abs_within(VEL_BASE_LIMIT + i * EVENT_IMPULSE_MAX),
            run_events(pd, events@, dt_num as int, dt_den as int) == run_events(
                *p,
                events@.skip(i as int),
                dt_num as int,
                dt_den as int,
            ),
        decreases n - i,
    {
        let ghost p_pre = *p;
        let ev: ControlPlayerEvent = events[i];
        proof {
            assert(events@.skip(i as int)[0] == events@[i as int]);
            assert(events@.skip(i as int).drop_first() =~= events@.skip(i as int + 1));
        }
        let step: Result<(), ActionError> = apply_control_event(p, &ev, dt_num, dt_den);
        match step {
            Ok(_) => {
                proof {
                    lemma_walk_impulse_bound(
                        p_pre.speed.walking as int,
                        WALK_SCALE as int,
                        dt_num as int,
                        dt_den as int,
                    );
                    lemma_walk_impulse_bound(
                        p_pre.speed.walking as int,
                        SPRINT_SCALE as int,
                        dt_num as int,
                        dt_den as int,
                    );
                }
                i += 1;
            },
            Err(e) => {
                proof {
                    assert(event_step(p_pre, ev, dt_num as int, dt_den as int) is None);
                    assert(run_events(p_pre, events@.skip(i as int), dt_num as int, dt_den as int)
                        == (p_pre, false));
                }
                return Err(e);
            },
        }
    }
    proof {
        assert(events@.skip(n as int) =~= Seq::<ControlPlayerEvent>::empty());
    }
    Ok(())
}

/// A list of events free of unimplemented actions always runs to completion.
pub proof fn lemma_run_events_ok(p: Player, evs: Seq<ControlPlayerEvent>, num: int, den: int)
    requires
        forall|k: int|
            0 <= k < evs.len() ==> !((#[trigger] evs[k]).0 is Stand) && !(evs[k].0 is Attack),
    ensures
        run_events(p, evs, num, den).1,
    decreases evs.len(),
{
    if evs.len() > 0 {
        assert(!(evs[0].0 is Stand) && !(evs[0].0 is Attack));
        assert(event_step(p, evs[0], num, den) is Some);
        let p2 = event_step(p, evs[0], num, den)->Some_0;
        assert forall|k: int|
            0 <= k < evs.drop_first().len() implies !((#[trigger] evs.drop_first()[k]).0 is Stand)
            && !(evs.drop_first()[k].0 is Attack) by {
            assert(evs.drop_first()[k] == evs[k + 1]);
        }
        lemma_run_events_ok(p2, evs.drop_first(), num, den);
    }
}

/// The actor after one whole control tick from a decoded key snapshot:
/// damping, then the derived events. A jump is gated on jump-just-pressed
/// and grounded alone, never on direction resolution; only when the mask
/// resolves to no direction and no jump applied does the action collapse to
/// Stand at the last-known facing.
pub open spec fn control_step(
    p: Player,
    mask: u8,
    sprint_held: bool,
    jump_pressed: bool,
    num: int,
    den: int,
) -> Player {
    let pd = damped(p);
    let pr = run_events(
        pd,
        spec_control_events(mask, sprint_held, jump_pressed, p.facing),
        num,
        den,
    ).0;
    if spec_resolve_direction(mask) is Some || (jump_pressed && p.motion.grounded) {
        pr
    } else {
        Player {
            status: PlayerAction::Stand { direction: pr.facing },
            facing: pr.facing,
            motion: pr.motion,
            speed: pr.speed,
            movements: pr.movements,
            timer: pr.timer,
            frame: pr.frame,
        }
    }
}

/// One control tick from a decoded key snapshot. The derived events hold no
/// unimplemented action, so this never fails.
pub fn control_tick(p: &mut Player, mask: u8, sprint_held: bool, jump_pressed: bool, dt_num: u64, dt_den: u64)
    requires
        old(p).wf(),
        old(p).motion.velocity.abs_within(VEL_BASE_LIMIT as int),
        dt_num <= DT_MAX,
        1 <= dt_den <= DT_MAX,
    ensures
        final(p).wf(),
        *final(p) == control_step(
            *old(p),
            mask,
            sprint_held,
            jump_pressed,
            dt_num as int,
            dt_den as int,
        ),
{
    let facing0: Directions = p.facing;
    let was_grounded: bool = p.motion.grounded;
    let events: Vec<ControlPlayerEvent> = crate::input_control::derive_control_events(
        mask,
        sprint_held,
        jump_pressed,
        facing0,
    );
    let resolved: Option<Directions> = crate::input_control::resolve_direction(mask);
    let step: Result<(), ActionError> = move_player2(p, &events, dt_num, dt_den);
    proof {
        let num = dt_num as int;
        let den = dt_den as int;
        let pd = damped(*old(p));
        let evs = spec_control_events(mask, sprint_held, jump_pressed, facing0);
        match spec_resolve_direction(mask) {
            Some(dir) => {
                let move_event = ControlPlayerEvent(
                    if sprint_held {
                        PlayerAction::Sprint { direction: dir }
                    } else {
                        PlayerAction::Walk { direction: dir }
                    },
                );
                let jump_event = ControlPlayerEvent(PlayerAction::Jump { direction: dir });
                if jump_pressed {
                    assert(evs == seq![move_event, jump_event]);
                    assert(evs[0] == move_event && evs[1] == jump_event);
                } else {
                    assert(evs == seq![move_event]);
                    assert(evs[0] == move_event);
                }
            },
            None => {
                if jump_pressed {
                    let jump_event = ControlPlayerEvent(PlayerAction::Jump { direction: facing0 });
                    assert(evs == seq![jump_event]);
                    assert(evs[0] == jump_event);
                } else {
                    assert(evs == Seq::<ControlPlayerEvent>::empty());
                }
            },
        }
        assert forall|k: int|
            0 <= k < evs.len() implies !((#[trigger] evs[k]).0 is Stand) && !(
        evs[k].0 is Attack) by {}
        lemma_run_events_ok(pd, evs, num, den);
    }
    let collapse: bool = match resolved {
        None => !(jump_pressed && was_grounded),
        Some(_) => false,
    };
    if collapse {
        let f: Directions = p.facing;
        p.status = PlayerAction::Stand { direction: f };
    }
}

/// With a delta time of at most one second, a lateral impulse is at most
/// speed times scale.
pub proof fn lemma_impulse_le_speed_scale(w: int, s: int, num: int, den: int)
    requires
        0 <= w,
        0 <= s,
        0 <= num <= den,
        1 <= den,
    ensures
        0 <= walk_impulse(w, s, num, den) <= w * s,
{
    assert(0 <= w * s * num <= w * s * den) by (nonlinear_arith)
        requires
            0 <= w,
            0 <= s,
            0 <= num <= den,
    ;
    vstd::arithmetic::div_mod::lemma_div_is_ordered(w * s * num, w * s * den, den);
    assert(w * s * den == (w * s) * den);
    vstd::arithmetic::div_mod::lemma_div_by_multiple(w * s, den);
    assert(0 <= (w * s * num) / den) by (nonlinear_arith)
        requires
            0 <= w * s * num,
            1 <= den,
    ;
}

/// The control step never moves the position and never touches the speeds,
/// the movement table, the animation timer or the displayed frame; with a
/// delta time of at most one second, the velocity grows by at most one
/// lateral impulse plus one jump impulse, and its z component is untouched.
pub proof fn lemma_control_step_effects(
    p: Player,
    mask: u8,
    sprint_held: bool,
    jump_pressed: bool,
    num: int,
    den: int,
    b: int,
)
    requires
        p.wf(),
        0 <= num <= den,
        1 <= den,
        0 <= b,
        p.motion.velocity.abs_within(b),
        b + p.speed.walking * (SPRINT_SCALE as int) + JUMP_IMPULSE <= i64::MAX,
    ensures
        ({
            let q = control_step(p, mask, sprint_held, jump_pressed, num, den);
            &&& q.motion.position == p.motion.position
            &&& q.speed == p.speed
            &&& q.movements == p.movements
            &&& q.timer == p.timer
            &&& q.frame == p.frame
            &&& q.motion.velocity.abs_within(
                b + p.speed.walking * (SPRINT_SCALE as int) + JUMP_IMPULSE,
            )
            &&& q.motion.velocity.z == p.motion.velocity.z
        }),
{
    let pd = damped(p);
    let v = p.motion.velocity.x as int;
    if v >= 0 {
        assert(0 <= v / 10 <= v) by (nonlinear_arith)
            requires
                v >= 0,
        ;
    } else {
        assert(0 <= (-v) / 10 <= -v) by (nonlinear_arith)
            requires
                -v >= 0,
        ;
    }
    assert(pd.motion.velocity.abs_within(b));
    let w = p.speed.walking as int;
    match spec_resolve_direction(mask) {
        None => {
            let evs = spec_control_events(mask, sprint_held, jump_pressed, p.facing);
            if jump_pressed {
                let jump_event = ControlPlayerEvent(PlayerAction::Jump { direction: p.facing });
                assert(evs == seq![jump_event]);
                assert(evs[0] == jump_event);
                assert(evs.drop_first() =~= Seq::<ControlPlayerEvent>::empty());
                let p1 = event_step(pd, jump_event, num, den)->Some_0;
                assert(event_step(pd, evs[0], num, den) == Some(p1));
                assert(run_events(pd, evs, num, den) == run_events(
                    p1,
                    evs.drop_first(),
                    num,
                    den,
                ));
                assert(run_events(p1, evs.drop_first(), num, den) == (p1, true));
            } else {
                assert(evs =~= Seq::<ControlPlayerEvent>::empty());
            }
        },
        Some(dir) => {
            lemma_impulse_le_speed_scale(w, WALK_SCALE as int, num, den);
            lemma_impulse_le_speed_scale(w, SPRINT_SCALE as int, num, den);
            assert(w * (WALK_SCALE as int) <= w * (SPRINT_SCALE as int)) by (nonlinear_arith)
                requires
                    w >= 0,
            ;
            let evs = spec_control_events(mask, sprint_held, jump_pressed, p.facing);
            let move_event = ControlPlayerEvent(
                if sprint_held {
                    PlayerAction::Sprint { direction: dir }
                } else {
                    PlayerAction::Walk { direction: dir }
                },
            );
            let jump_event = ControlPlayerEvent(PlayerAction::Jump { direction: dir });
            let p1 = event_step(pd, move_event, num, den)->Some_0;
            assert(p1.motion.velocity.abs_within(b + w * (SPRINT_SCALE as int)));
            if jump_pressed {
                assert(evs == seq![move_event, jump_event]);
                assert(evs[0] == move_event && evs[1] == jump_event);
                assert(evs.drop_first()[0] == evs[1]);
                assert(evs.drop_first().drop_first() =~= Seq::<ControlPlayerEvent>::empty());
                let p2 = event_step(p1, jump_event, num, den)->Some_0;
                assert(event_step(pd, evs[0], num, den) == Some(p1));
                assert(run_events(pd, evs, num, den) == run_events(
                    p1,
                    evs.drop_first(),
                    num,
                    den,
                ));
                assert(event_step(p1, evs.drop_first()[0], num, den) == Some(p2));
                assert(run_events(p1, evs.drop_first(), num, den) == run_events(
                    p2,
                    evs.drop_first().drop_first(),
                    num,
                    den,
                ));
                assert(run_events(p2, evs.drop_first().drop_first(), num, den) == (p2, true));
            } else {
                assert(evs == seq![move_event]);
                assert(evs[0] == move_event);
                assert(evs.drop_first() =~= Seq::<ControlPlayerEvent>::empty());
                assert(event_step(pd, evs[0], num, den) == Some(p1));
                assert(run_events(pd, evs, num, den) == run_events(
                    p1,
                    evs.drop_first(),
                    num,
                    den,
                ));
                assert(run_events(p1, evs.drop_first(), num, den) == (p1, true));
            }
        },
    }
}

/// The actor at initialization: at rest just above the corridor floor,
/// airborne, facing Right and standing, showing frame 1, with the standard
/// movement table, the reference speeds, and a 10 Hz animation timer.
pub fn initialize_character() -> (p: Player)
    ensures
        p.wf(),
        p.movements.movements@ == standard_movements(),
        p.motion == (MotionState {
            position: Vec3Fix { x: 0i64, y: 55_000i64, z: 1000i64 },
            velocity: Vec3Fix { x: 0i64, y: 0i64, z: 0i64 },
            rotation: 0i64,
            grounded: false,
        }),
        p.speed == (Speed { walking: 8000u64, sprinting: 16_000u64 }),
        p.facing == Directions::Right,
        p.status == (PlayerAction::Stand { direction: Directions::Right }),
        p.timer == (AnimationTimer {
            interval_us: ANIMATION_INTERVAL_US,
            elapsed_us: 0u64,
            times_finished: 0u64,
        }),
        p.frame == 1,
{
    let mut movements: Vec<PlayerMovement> = Vec::new();
    movements.push(
        PlayerMovement {
            direction: Directions::Up,
            translation: Vec3Fix { x: 0, y: 1000, z: 0 },
            first_index: 16,
            last_index: 19,
        },
    );
    movements.push(
        PlayerMovement {
            direction: Directions::UpRight,
            translation: Vec3Fix { x: 707, y: 707, z: 0 },
            first_index: 12,
            last_index: 15,
        },
    );
    movements.push(
        PlayerMovement {
            direction: Directions::Right,
            translation: Vec3Fix { x: 1000, y: 0, z: 0 },
            first_index: 8,
            last_index: 11,
        },
    );
    movements.push(
        PlayerMovement {
            direction: Directions::DownRight,
            translation: Vec3Fix { x: 707, y: -707, z: 0 },
            first_index: 4,
            last_index: 7,
        },
    );
    movements.push(
        PlayerMovement {
            direction: Directions::Down,
            translation: Vec3Fix { x: 0, y: -1000, z: 0 },
            first_index: 0,
            last_index: 3,
        },
    );
    movements.push(
        PlayerMovement {
            direction: Directions::DownLeft,
            translation: Vec3Fix { x: -707, y: -707, z: 0 },
            first_index: 28,
            last_index: 31,
        },
    );
    movements.push(
        PlayerMovement {
            direction: Directions::Left,
            translation: Vec3Fix { x: -1000, y: 0, z: 0 },
            first_index: 24,
            last_index: 27,
        },
    );
    movements.push(
        PlayerMovement {
            direction: Directions::UpLeft,
            translation: Vec3Fix { x: -707, y: 707, z: 0 },
            first_index: 20,
            last_index: 23,
        },
    );
    proof {
        assert(movements@ =~= standard_movements());
    }
    Player {
        status: PlayerAction::Stand { direction: Directions::Right },
        facing: Directions::Right,
        motion: MotionState {
            position: Vec3Fix { x: 0, y: 55_000, z: 1000 },
            velocity: Vec3Fix { x: 0, y: 0, z: 0 },
            rotation: 0,
            grounded: false,
        },
        speed: Speed { walking: 8000, sprinting: 16_000 },
        movements: PlayerMovements { movements },
        timer: AnimationTimer {
            interval_us: ANIMATION_INTERVAL_US,
            elapsed_us: 0,
            times_finished: 0,
        },
        frame: 1,
    }
}

} // verus!
