use dwarf_dungeon::animation::advance_frame;
use dwarf_dungeon::animation::animate_player;
use dwarf_dungeon::input_control::Directions;
use dwarf_dungeon::player::AnimationTimer;
use dwarf_dungeon::player::ControlPlayerEvent;
use dwarf_dungeon::player::PlayerAction;
use dwarf_dungeon::player::initialize_character;

#[test]
fn timer_counts_crossed_boundaries() {
    let mut t = AnimationTimer::new(100_000);
    t.tick(30_000);
    assert!(!t.just_finished());
    assert_eq!(t.elapsed_us, 30_000);
    t.tick(80_000);
    assert!(t.just_finished());
    assert_eq!(t.times_finished, 1);
    assert_eq!(t.elapsed_us, 10_000);
    // catch-up after a stall: several boundaries in one poll
    t.tick(350_000);
    assert_eq!(t.times_finished, 3);
    assert_eq!(t.elapsed_us, 60_000);
}

#[test]
fn advance_steps_one_frame_per_boundary() {
    // the Right clip spans frames 8 to 11; single steps wrap within the span
    assert_eq!(advance_frame(8, 8, 11, 1), 9);
    assert_eq!(advance_frame(9, 8, 11, 1), 10);
    assert_eq!(advance_frame(10, 8, 11, 1), 8);
    assert_eq!(advance_frame(11, 8, 11, 1), 8);
}

#[test]
fn catch_up_never_overshoots_the_clip() {
    // catch-up from a mid-clip frame wraps instead of leaving the range
    assert_eq!(advance_frame(10, 8, 11, 2), 9);
    for frame in 0..16usize {
        for n in 0..8u64 {
            let r = advance_frame(frame, 8, 11, n);
            assert!(8 <= r && r < 11);
        }
    }
}

#[test]
fn single_span_clip_never_leaves_its_first_frame() {
    // a two-frame clip has span 1, so every boundary count lands on the same
    // frame again
    for n in 0..5u64 {
        assert_eq!(advance_frame(5, 5, 6, n), 5);
    }
}

#[test]
fn one_microsecond_interval_counts_every_microsecond() {
    let mut t = AnimationTimer::new(1);
    t.tick(42);
    assert_eq!(t.times_finished, 42);
    assert_eq!(t.elapsed_us, 0);
}

#[test]
fn advance_wraps_catch_up_with_modulo() {
    // starting at the first frame, N boundaries land on first + (N mod span)
    for n in 0..12u64 {
        assert_eq!(advance_frame(8, 8, 11, n) as u64, 8 + n % 3);
    }
}

#[test]
fn direction_change_always_resets() {
    // a frame inside the Up clip (16 to 19) is outside every other clip
    assert_eq!(advance_frame(17, 8, 11, 2), 8);
    assert_eq!(advance_frame(16, 24, 27, 5), 24);
    // and a frame below the clip resets as well
    assert_eq!(advance_frame(4, 8, 11, 1), 8);
}

#[test]
fn walk_event_advances_the_grounded_actor() {
    let mut p = initialize_character();
    p.motion.grounded = true;
    let events = vec![ControlPlayerEvent(PlayerAction::Walk { direction: Directions::Right })];
    // one full timer interval: the frame leaves its initial value (outside
    // the Right clip) for the clip's first frame
    animate_player(&mut p, &events, 100_000);
    assert_eq!(p.frame, 8);
    animate_player(&mut p, &events, 100_000);
    assert_eq!(p.frame, 9);
    animate_player(&mut p, &events, 100_000);
    assert_eq!(p.frame, 10);
}

#[test]
fn airborne_actor_keeps_its_frame() {
    let mut p = initialize_character();
    let events = vec![ControlPlayerEvent(PlayerAction::Sprint { direction: Directions::Right })];
    animate_player(&mut p, &events, 100_000);
    // the timer ticked but the frame is frozen while airborne
    assert_eq!(p.frame, 1);
    assert!(p.timer.just_finished());
}

#[test]
fn incomplete_interval_keeps_the_frame() {
    let mut p = initialize_character();
    p.motion.grounded = true;
    let events = vec![ControlPlayerEvent(PlayerAction::Walk { direction: Directions::Right })];
    animate_player(&mut p, &events, 60_000);
    assert_eq!(p.frame, 1);
    assert_eq!(p.timer.elapsed_us, 60_000);
}

#[test]
fn jump_and_stand_events_never_animate() {
    let mut p = initialize_character();
    p.motion.grounded = true;
    p.frame = 9;
    let events = vec![
        ControlPlayerEvent(PlayerAction::Jump { direction: Directions::Right }),
        ControlPlayerEvent(PlayerAction::Stand { direction: Directions::Right }),
        ControlPlayerEvent(PlayerAction::Attack),
    ];
    animate_player(&mut p, &events, 100_000);
    assert_eq!(p.frame, 9);
    assert_eq!(p.timer.elapsed_us, 0);
    assert!(!p.timer.just_finished());
}

#[test]
fn direction_change_resets_in_a_running_cycle() {
    let mut p = initialize_character();
    p.motion.grounded = true;
    let right = vec![ControlPlayerEvent(PlayerAction::Walk { direction: Directions::Right })];
    let left = vec![ControlPlayerEvent(PlayerAction::Walk { direction: Directions::Left })];
    animate_player(&mut p, &right, 100_000);
    animate_player(&mut p, &right, 100_000);
    assert_eq!(p.frame, 9);
    // turning around resets to the Left clip's first frame, whatever the
    // boundary count of the poll
    animate_player(&mut p, &left, 300_000);
    assert_eq!(p.frame, 24);
}

#[test]
fn catch_up_stays_inside_the_clip() {
    let mut p = initialize_character();
    p.motion.grounded = true;
    let right = vec![ControlPlayerEvent(PlayerAction::Walk { direction: Directions::Right })];
    animate_player(&mut p, &right, 100_000);
    assert_eq!(p.frame, 8);
    // five boundaries in one poll: 8 + (5 mod 3) = 10
    animate_player(&mut p, &right, 500_000);
    assert_eq!(p.frame, 10);
}
