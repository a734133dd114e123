use dwarf_dungeon::input_control::Directions;
use dwarf_dungeon::input_control::derive_control_events;
use dwarf_dungeon::input_control::resolve_direction;
use dwarf_dungeon::player::ControlPlayerEvent;
use dwarf_dungeon::player::PlayerAction;

#[test]
fn direction_table_matches_the_expectation_table() {
    // mask bits: 1 = Up (W), 2 = Left (A), 4 = Down (S), 8 = Right (D)
    let expected: [Option<Directions>; 16] = [
        None,                       // 0b0000
        Some(Directions::Up),       // 0b0001
        Some(Directions::Left),     // 0b0010
        Some(Directions::Left),     // 0b0011  Up+Left collapses to Left
        Some(Directions::Down),     // 0b0100
        None,                       // 0b0101  opposite keys
        Some(Directions::Left),     // 0b0110  Down+Left collapses to Left
        None,                       // 0b0111  three keys
        Some(Directions::Right),    // 0b1000
        Some(Directions::Right),    // 0b1001  Up+Right collapses to Right
        None,                       // 0b1010  opposite keys
        None,                       // 0b1011  three keys
        Some(Directions::Right),    // 0b1100  Down+Right collapses to Right
        None,                       // 0b1101  three keys
        None,                       // 0b1110  three keys
        None,                       // 0b1111  four keys
    ];
    for mask in 0..16u8 {
        assert_eq!(resolve_direction(mask), expected[mask as usize], "mask {:#06b}", mask);
    }
    for mask in 16..=255u8 {
        assert_eq!(resolve_direction(mask), None);
    }
}

#[test]
fn clip_indices_follow_the_clockwise_order() {
    assert_eq!(Directions::Up.clip_index(), 0);
    assert_eq!(Directions::UpRight.clip_index(), 1);
    assert_eq!(Directions::Right.clip_index(), 2);
    assert_eq!(Directions::DownRight.clip_index(), 3);
    assert_eq!(Directions::Down.clip_index(), 4);
    assert_eq!(Directions::DownLeft.clip_index(), 5);
    assert_eq!(Directions::Left.clip_index(), 6);
    assert_eq!(Directions::UpLeft.clip_index(), 7);
}

#[test]
fn walk_event_for_a_plain_key() {
    let events = derive_control_events(0b1000, false, false, Directions::Right);
    assert_eq!(
        events,
        vec![ControlPlayerEvent(PlayerAction::Walk { direction: Directions::Right })]
    );
}

#[test]
fn sprint_and_jump_events_in_order() {
    let events = derive_control_events(0b0010, true, true, Directions::Right);
    assert_eq!(
        events,
        vec![
            ControlPlayerEvent(PlayerAction::Sprint { direction: Directions::Left }),
            ControlPlayerEvent(PlayerAction::Jump { direction: Directions::Left }),
        ]
    );
}

#[test]
fn unresolved_mask_still_issues_the_jump() {
    // opposite keys resolve to no direction: no movement event, but the jump
    // is gated only on jump-just-pressed, so it is issued alone, carrying
    // the current facing
    let events = derive_control_events(0b0101, true, true, Directions::Left);
    assert_eq!(
        events,
        vec![ControlPlayerEvent(PlayerAction::Jump { direction: Directions::Left })]
    );
    let no_jump = derive_control_events(0b0101, true, false, Directions::Left);
    assert!(no_jump.is_empty());
    let no_keys = derive_control_events(0, false, false, Directions::Up);
    assert!(no_keys.is_empty());
}
