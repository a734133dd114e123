use dwarf_dungeon::fixed::Vec3Fix;
use dwarf_dungeon::input_control::Directions;
use dwarf_dungeon::player::ActionError;
use dwarf_dungeon::player::ControlPlayerEvent;
use dwarf_dungeon::player::JUMP_IMPULSE;
use dwarf_dungeon::player::Player;
use dwarf_dungeon::player::PlayerAction;
use dwarf_dungeon::player::apply_control_event;
use dwarf_dungeon::player::control_tick;
use dwarf_dungeon::player::damp_horizontal;
use dwarf_dungeon::player::initialize_character;
use dwarf_dungeon::player::move_player2;

fn grounded_actor() -> Player {
    let mut p = initialize_character();
    p.motion.grounded = true;
    p
}

#[test]
fn initial_actor_state() {
    let p = initialize_character();
    assert_eq!(p.motion.position, Vec3Fix { x: 0, y: 55_000, z: 1000 });
    assert_eq!(p.motion.velocity, Vec3Fix { x: 0, y: 0, z: 0 });
    assert!(!p.motion.grounded);
    assert_eq!(p.facing, Directions::Right);
    assert_eq!(p.status, PlayerAction::Stand { direction: Directions::Right });
    assert_eq!(p.speed.walking, 8000);
    assert_eq!(p.speed.sprinting, 16_000);
    assert_eq!(p.frame, 1);
    assert_eq!(p.timer.interval_us, 100_000);
    assert_eq!(p.movements.movements.len(), 8);
    assert_eq!(p.movements.movements[2].first_index, 8);
    assert_eq!(p.movements.movements[2].last_index, 11);
}

#[test]
fn damping_decays_ten_percent_truncated() {
    let mut p = grounded_actor();
    p.motion.velocity.x = 160_000;
    damp_horizontal(&mut p);
    assert_eq!(p.motion.velocity.x, 144_000);
    p.motion.velocity.x = -160_000;
    damp_horizontal(&mut p);
    assert_eq!(p.motion.velocity.x, -144_000);
    // truncation toward zero: a tiny negative residue decays by nothing
    p.motion.velocity.x = -9;
    damp_horizontal(&mut p);
    assert_eq!(p.motion.velocity.x, -9);
}

#[test]
fn damping_only_applies_while_grounded() {
    let mut p = initialize_character();
    p.motion.velocity.x = 160_000;
    damp_horizontal(&mut p);
    assert_eq!(p.motion.velocity.x, 160_000);
}

#[test]
fn walk_impulse_exact_value() {
    let mut p = grounded_actor();
    let ev = ControlPlayerEvent(PlayerAction::Walk { direction: Directions::Right });
    let r = apply_control_event(&mut p, &ev, 1, 15);
    assert!(r.is_ok());
    // 8000 milli * 300 * (1/15 s) = 160000 milli-units per second
    assert_eq!(p.motion.velocity.x, 160_000);
    assert_eq!(p.facing, Directions::Right);
    assert_eq!(p.status, PlayerAction::Walk { direction: Directions::Right });
}

#[test]
fn sprint_impulse_doubles_the_scale() {
    let mut p = grounded_actor();
    let ev = ControlPlayerEvent(PlayerAction::Sprint { direction: Directions::Left });
    let r = apply_control_event(&mut p, &ev, 1, 15);
    assert!(r.is_ok());
    assert_eq!(p.motion.velocity.x, -320_000);
    assert_eq!(p.status, PlayerAction::Sprint { direction: Directions::Left });
}

#[test]
fn lateral_movement_needs_ground() {
    let mut p = initialize_character();
    let ev = ControlPlayerEvent(PlayerAction::Walk { direction: Directions::Right });
    let r = apply_control_event(&mut p, &ev, 1, 15);
    assert!(r.is_ok());
    assert_eq!(p.motion.velocity.x, 0);
    assert_eq!(p.status, PlayerAction::Stand { direction: Directions::Right });
}

#[test]
fn vertical_directions_add_no_impulse() {
    let mut p = grounded_actor();
    let ev = ControlPlayerEvent(PlayerAction::Walk { direction: Directions::Up });
    let r = apply_control_event(&mut p, &ev, 1, 15);
    assert!(r.is_ok());
    assert_eq!(p.motion.velocity, Vec3Fix { x: 0, y: 0, z: 0 });
    assert_eq!(p.facing, Directions::Right);
}

#[test]
fn jump_while_grounded_adds_exactly_the_impulse() {
    let mut p = grounded_actor();
    p.motion.velocity.x = 5000;
    let ev = ControlPlayerEvent(PlayerAction::Jump { direction: Directions::Right });
    let r = apply_control_event(&mut p, &ev, 1, 15);
    assert!(r.is_ok());
    assert_eq!(p.motion.velocity.y, JUMP_IMPULSE);
    assert_eq!(p.motion.velocity.x, 5000);
    assert!(!p.motion.grounded);
    assert_eq!(p.status, PlayerAction::Jump { direction: Directions::Right });
}

#[test]
fn jump_while_airborne_changes_nothing() {
    let mut p = initialize_character();
    let before_velocity = p.motion.velocity;
    let before_position = p.motion.position;
    let ev = ControlPlayerEvent(PlayerAction::Jump { direction: Directions::Right });
    let r = apply_control_event(&mut p, &ev, 1, 15);
    assert!(r.is_ok());
    assert_eq!(p.motion.velocity, before_velocity);
    assert_eq!(p.motion.position, before_position);
    assert!(!p.motion.grounded);
}

#[test]
fn stand_and_attack_are_explicit_stubs() {
    let mut p = grounded_actor();
    let stand = ControlPlayerEvent(PlayerAction::Stand { direction: Directions::Right });
    assert_eq!(apply_control_event(&mut p, &stand, 1, 15), Err(ActionError::NotImplemented));
    let attack = ControlPlayerEvent(PlayerAction::Attack);
    assert_eq!(apply_control_event(&mut p, &attack, 1, 15), Err(ActionError::NotImplemented));
    // the actor is untouched by a stub failure
    assert_eq!(p.motion.velocity, Vec3Fix { x: 0, y: 0, z: 0 });
    assert!(p.motion.grounded);
}

#[test]
fn events_before_a_stub_failure_stay_applied() {
    let mut p = grounded_actor();
    let events = vec![
        ControlPlayerEvent(PlayerAction::Walk { direction: Directions::Right }),
        ControlPlayerEvent(PlayerAction::Attack),
        ControlPlayerEvent(PlayerAction::Jump { direction: Directions::Right }),
    ];
    let r = move_player2(&mut p, &events, 1, 15);
    assert_eq!(r, Err(ActionError::NotImplemented));
    assert_eq!(p.motion.velocity.x, 160_000);
    // the jump after the failure never ran
    assert!(p.motion.grounded);
    assert_eq!(p.motion.velocity.y, 0);
}

#[test]
fn damping_runs_before_the_events() {
    let mut p = grounded_actor();
    p.motion.velocity.x = 100_000;
    let events = vec![ControlPlayerEvent(PlayerAction::Walk { direction: Directions::Right })];
    let r = move_player2(&mut p, &events, 1, 15);
    assert!(r.is_ok());
    // 100000 damps to 90000, then the held key re-adds 160000
    assert_eq!(p.motion.velocity.x, 250_000);
}

#[test]
fn unresolved_mask_collapses_to_stand() {
    let mut p = grounded_actor();
    p.facing = Directions::Left;
    p.status = PlayerAction::Walk { direction: Directions::Left };
    p.motion.velocity.x = -1000;
    control_tick(&mut p, 0, false, false, 1, 15);
    assert_eq!(p.status, PlayerAction::Stand { direction: Directions::Left });
    // damping still ran
    assert_eq!(p.motion.velocity.x, -900);
    assert!(p.motion.grounded);
}

#[test]
fn unresolved_mask_never_suppresses_the_jump() {
    // the jump is gated on jump-just-pressed and grounded alone: it fires
    // even when no direction resolves, and the action is then Jump, not the
    // Stand collapse
    let mut p = grounded_actor();
    p.facing = Directions::Left;
    p.motion.velocity.x = -1000;
    control_tick(&mut p, 0, false, true, 1, 15);
    assert_eq!(p.motion.velocity.y, JUMP_IMPULSE);
    assert!(!p.motion.grounded);
    assert_eq!(p.status, PlayerAction::Jump { direction: Directions::Left });
    // damping ran before the jump, as every tick
    assert_eq!(p.motion.velocity.x, -900);
}

#[test]
fn airborne_unresolved_jump_still_collapses_to_stand() {
    // airborne, the jump applies nothing, so an unresolved mask falls back
    // to the Stand collapse
    let mut p = initialize_character();
    p.facing = Directions::Left;
    p.status = PlayerAction::Walk { direction: Directions::Left };
    control_tick(&mut p, 0, false, true, 1, 15);
    assert_eq!(p.status, PlayerAction::Stand { direction: Directions::Left });
    assert_eq!(p.motion.velocity, Vec3Fix { x: 0, y: 0, z: 0 });
    assert!(!p.motion.grounded);
}

#[test]
fn control_tick_walks_and_jumps_together() {
    let mut p = grounded_actor();
    control_tick(&mut p, 0b1000, false, true, 1, 15);
    // the walk event lands before the jump, so both apply in one tick
    assert_eq!(p.motion.velocity.x, 160_000);
    assert_eq!(p.motion.velocity.y, JUMP_IMPULSE);
    assert!(!p.motion.grounded);
    assert_eq!(p.status, PlayerAction::Jump { direction: Directions::Right });
}
