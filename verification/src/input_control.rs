//! Input resolution: the per-tick 4-bit key mask, its fixed lookup table
//! onto movement directions, and the control events derived from one tick's
//! key snapshot.

use vstd::prelude::*;

use crate::player::ControlPlayerEvent;
use crate::player::PlayerAction;

verus! {

/// The eight facing directions, clockwise from Up. The order is significant:
/// it is the index order of the per-direction animation clips.
#[derive(Clone, Copy, Debug, PartialEq, Eq, Structural)]
pub enum Directions {
    Up,
    UpRight,
    Right,
    DownRight,
    Down,
    DownLeft,
    Left,
    UpLeft,
}

impl Directions {
    /// Position of this direction in the clockwise order starting at Up;
    /// also its animation-clip index.
    pub open spec fn spec_clip_index(self) -> int {
        match self {
            Directions::Up => 0,
            Directions::UpRight => 1,
            Directions::Right => 2,
            Directions::DownRight => 3,
            Directions::Down => 4,
            Directions::DownLeft => 5,
            Directions::Left => 6,
            Directions::UpLeft => 7,
        }
    }

    pub fn clip_index(&self) -> (i: usize)
        ensures
            i == self.spec_clip_index(),
    {
        match *self {
            Directions::Up => 0,
            Directions::UpRight => 1,
            Directions::Right => 2,
            Directions::DownRight => 3,
            Directions::Down => 4,
            Directions::DownLeft => 5,
            Directions::Left => 6,
            Directions::UpLeft => 7,
        }
    }
}

/// The fixed direction table, keyed by the 4-bit key mask: bit 0 is Up,
/// bit 1 is Left, bit 2 is Down, bit 3 is Right. Exactly eight masks map to
/// a direction; diagonal two-key combinations collapse onto a cardinal
/// direction (a deliberate reduced-responsiveness trade-off). Every other
/// mask means no directional action this tick.
pub open spec fn spec_resolve_direction(mask: u8) -> Option<Directions> {
    if mask == 0b0001 {
        Some(Directions::Up)
    } else if mask == 0b1001 {
        Some(Directions::Right)
    } else if mask == 0b1000 {
        Some(Directions::Right)
    } else if mask == 0b1100 {
        Some(Directions::Right)
    } else if mask == 0b0100 {
        Some(Directions::Down)
    } else if mask == 0b0110 {
        Some(Directions::Left)
    } else if mask == 0b0010 {
        Some(Directions::Left)
    } else if mask == 0b0011 {
        Some(Directions::Left)
    } else {
        None
    }
}

pub fn resolve_direction(mask: u8) -> (r: Option<Directions>)
    ensures
        r == spec_resolve_direction(mask),
{
    match mask {
        0b0001 => Some(Directions::Up),
        0b1001 => Some(Directions::Right),
        0b1000 => Some(Directions::Right),
        0b1100 => Some(Directions::Right),
        0b0100 => Some(Directions::Down),
        0b0110 => Some(Directions::Left),
        0b0010 => Some(Directions::Left),
        0b0011 => Some(Directions::Left),
        _ => None,
    }
}

/// Direction-table completeness: the lookup yields a direction for exactly
/// the eight documented masks (the four single cardinal bits and the four
/// two-adjacent-bit diagonals, which collapse onto a cardinal), and no
/// directional action for all other masks.
pub proof fn lemma_direction_table_complete()
    ensures
        forall|mask: u8|
            (#[trigger] spec_resolve_direction(mask)) is Some <==> (mask == 1 || mask == 2 || mask
                == 3 || mask == 4 || mask == 6 || mask == 8 || mask == 9 || mask == 12),
        spec_resolve_direction(1) == Some(Directions::Up),
        spec_resolve_direction(9) == Some(Directions::Right),
        spec_resolve_direction(8) == Some(Directions::Right),
        spec_resolve_direction(12) == Some(Directions::Right),
        spec_resolve_direction(4) == Some(Directions::Down),
        spec_resolve_direction(6) == Some(Directions::Left),
        spec_resolve_direction(2) == Some(Directions::Left),
        spec_resolve_direction(3) == Some(Directions::Left),
{
}

/// The control events one tick's key snapshot produces: a sprint or walk
/// event for the resolved direction, when there is one, followed by a jump
/// event when the jump key was just pressed. The jump does not need a
/// resolved direction: on an unresolved mask it is issued alone, carrying
/// the actor's current facing.
pub open spec fn spec_control_events(
    mask: u8,
    sprint_held: bool,
    jump_pressed: bool,
    facing: Directions,
) -> Seq<ControlPlayerEvent> {
    match spec_resolve_direction(mask) {
        None => if jump_pressed {
            seq![ControlPlayerEvent(PlayerAction::Jump { direction: facing })]
        } else {
            Seq::empty()
        },
        Some(dir) => {
            let move_event = ControlPlayerEvent(
                if sprint_held {
                    PlayerAction::Sprint { direction: dir }
                } else {
                    PlayerAction::Walk { direction: dir }
                },
            );
            if jump_pressed {
                seq![move_event, ControlPlayerEvent(PlayerAction::Jump { direction: dir })]
            } else {
                seq![move_event]
            }
        },
    }
}

/// Turn one tick's decoded key snapshot into the buffered control events,
/// in the order they are issued. `facing` is the actor's current facing,
/// carried by a jump issued without a resolved direction.
pub fn derive_control_events(
    mask: u8,
    sprint_held: bool,
    jump_pressed: bool,
    facing: Directions,
) -> (events: Vec<ControlPlayerEvent>)
    ensures
        events@ == spec_control_events(mask, sprint_held, jump_pressed, facing),
        events@.len() <= 2,
{
    let mut events: Vec<ControlPlayerEvent> = Vec::new();
    let resolved: Option<Directions> = resolve_direction(mask);
    match resolved {
        None => {
            if jump_pressed {
                events.push(ControlPlayerEvent(PlayerAction::Jump { direction: facing }));
            }
        },
        Some(dir) => {
            if sprint_held {
                events.push(ControlPlayerEvent(PlayerAction::Sprint { direction: dir }));
            } else {
                events.push(ControlPlayerEvent(PlayerAction::Walk { direction: dir }));
            }
            if jump_pressed {
                events.push(ControlPlayerEvent(PlayerAction::Jump { direction: dir }));
            }
        },
    }
    proof {
        assert(events@ =~= spec_control_events(mask, sprint_held, jump_pressed, facing));
    }
    events
}

} // verus!
