//! The animation cycler: on animation-timer boundaries while the actor walks
//! or sprints grounded, the sprite frame advances through the facing
//! direction's clip, with modulo catch-up over the clip span and a reset to
//! the clip's first frame whenever the displayed frame is outside the clip
//! (in particular after any direction change).

use vstd::prelude::*;

use crate::input_control::Directions;
use crate::player::AnimationTimer;
use crate::player::ControlPlayerEvent;
use crate::player::EVENTS_MAX;
use crate::player::Player;
use crate::player::PlayerAction;
use crate::player::PlayerMovements;
use crate::player::standard_movements;

verus! {

/// The next displayed frame: outside the inclusive clip range (including
/// after a direction change), reset to the clip's first frame; inside it,
/// advance by the boundary count, wrapping modulo the clip span, so several
/// elapsed intervals in one poll still land inside the range and catch-up
/// never overshoots the clip.
pub open spec fn spec_advance_frame(frame: int, first: int, last: int, times: int) -> int
    recommends
        first < last,
        times >= 0,
{
    if frame >= last || frame < first {
        first
    } else {
        first + ((frame - first + times) % (last - first))
    }
}

pub fn advance_frame(frame: usize, first: usize, last: usize, times: u64) -> (r: usize)
    requires
        first < last,
        last <= 1_000_000,
    ensures
        r == spec_advance_frame(frame as int, first as int, last as int, times as int),
        first <= r < last,
{
    if frame >= last || frame < first {
        first
    } else {
        let span: u64 = (last - first) as u64;
        let offset: u64 = (frame - first) as u64;
        let add: u64 = (offset + times % span) % span;
        proof {
            vstd::arithmetic::div_mod::lemma_add_mod_noop_right(
                offset as int,
                times as int,
                span as int,
            );
            vstd::arithmetic::div_mod::lemma_mod_bound(offset + times, span as int);
        }
        first + (add as usize)
    }
}

/// Catch-up never leaves the clip: whatever the starting frame and boundary
/// count, the advanced frame lies inside `[first, last)`.
pub proof fn lemma_advance_stays_in_clip(frame: int, first: int, last: int, times: int)
    requires
        first < last,
        times >= 0,
    ensures
        first <= spec_advance_frame(frame, first, last, times) < last,
{
    if !(frame >= last || frame < first) {
        vstd::arithmetic::div_mod::lemma_mod_bound(frame - first + times, last - first);
    }
}

/// What one buffered event does to the animation state: a walk or sprint
/// event ticks the timer, and when the tick crossed a boundary while the
/// actor is grounded, the frame advances through that direction's clip.
/// Every other event leaves the animation untouched.
pub open spec fn animate_step(p: Player, ev: ControlPlayerEvent, delta_us: int) -> Player {
    match ev.0 {
        PlayerAction::Walk { direction } | PlayerAction::Sprint { direction } => {
            let total = p.timer.elapsed_us + delta_us;
            let times = total / (p.timer.interval_us as int);
            let new_timer = AnimationTimer {
                interval_us: p.timer.interval_us,
                elapsed_us: (total % (p.timer.interval_us as int)) as u64,
                times_finished: times as u64,
            };
            let clip = p.movements.clip_of(direction);
            let new_frame = if times >= 1 && p.motion.grounded {
                spec_advance_frame(
                    p.frame as int,
                    clip.first_index as int,
                    clip.last_index as int,
                    times,
                ) as usize
            } else {
                p.frame
            };
            Player {
                status: p.status,
                facing: p.facing,
                motion: p.motion,
                speed: p.speed,
                movements: p.movements,
                timer: new_timer,
                frame: new_frame,
            }
        },
        // Stand and Jump leave the walk/sprint clip alone; the Attack
        // animation is unspecified, so it too advances nothing rather than
        // falling through to the walk frames.
        PlayerAction::Stand { direction: _ } => p,
        PlayerAction::Jump { direction: _ } => p,
        PlayerAction::Attack => p,
    }
}

/// The animation state after the tick's buffered events, in order.
pub open spec fn run_animate(p: Player, evs: Seq<ControlPlayerEvent>, delta_us: int) -> Player
    decreases evs.len(),
{
    if evs.len() <= 0 {
        p
    } else {
        run_animate(animate_step(p, evs[0], delta_us), evs.drop_first(), delta_us)
    }
}

/// One animation poll: for each buffered walk or sprint event, tick the
/// timer by the poll's delta time and, on a crossed boundary while grounded,
/// advance the displayed frame through the event direction's clip. Stand,
/// Jump and Attack events never advance the walk/sprint clip.
pub fn animate_player(p: &mut Player, events: &Vec<ControlPlayerEvent>, delta_us: u64)
    requires
        old(p).wf(),
        delta_us <= 1_000_000_000_000,
        events@.len() <= EVENTS_MAX,
    ensures
        final(p).wf(),
        *final(p) == run_animate(*old(p), events@, delta_us as int),
{
    proof {
        assert(events@.skip(0) =~= events@);
    }
    let n: usize = events.len();
    let mut i: usize = 0;
    while i < n
        invariant
            i <= n,
            n == events@.len(),
            delta_us <= 1_000_000_000_000,
            p.wf(),
            run_animate(*old(p), events@, delta_us as int) == run_animate(
                *p,
                events@.skip(i as int),
                delta_us as int,
            ),
        decreases n - i,
    {
        let ghost p_pre = *p;
        let ev: ControlPlayerEvent = events[i];
        proof {
            assert(events@.skip(i as int)[0] == events@[i as int]);
            assert(events@.skip(i as int).drop_first() =~= events@.skip(i as int + 1));
        }
        let action: PlayerAction = ev.0;
        match action {
            PlayerAction::Walk { direction } | PlayerAction::Sprint { direction } => {
                p.timer.tick(delta_us);
                if p.timer.just_finished() && p.motion.grounded {
                    let idx: usize = direction.clip_index();
                    let first: usize = p.movements.movements[idx].first_index;
                    let last: usize = p.movements.movements[idx].last_index;
                    let new_frame: usize = advance_frame(
                        p.frame,
                        first,
                        last,
                        p.timer.times_finished,
                    );
                    p.frame = new_frame;
                }
                proof {
                    assert(*p == animate_step(p_pre, ev, delta_us as int));
                }
            },
            PlayerAction::Stand { direction: _ }
            | PlayerAction::Jump { direction: _ }
            | PlayerAction::Attack => {
                proof {
                    assert(*p == animate_step(p_pre, ev, delta_us as int));
                }
            },
        }
        i += 1;
    }
    proof {
        assert(events@.skip(n as int) =~= Seq::<ControlPlayerEvent>::empty());
    }
}

/// Animation wraparound: starting at a clip's first frame, one qualifying
/// advance that crossed `times` boundaries lands on `first + (times % span)`,
/// which is always inside the clip.
pub proof fn lemma_animation_wraparound(first: int, last: int, times: int)
    requires
        first < last,
        times >= 0,
    ensures
        spec_advance_frame(first, first, last, times) == first + (times % (last - first)),
        first <= spec_advance_frame(first, first, last, times) < last,
{
    vstd::arithmetic::div_mod::lemma_mod_bound(times, last - first);
}

/// The first frame of each direction's clip in the standard movement table;
/// every clip spans four frames.
pub open spec fn standard_clip_first(d: Directions) -> int {
    match d {
        Directions::Up => 16,
        Directions::UpRight => 12,
        Directions::Right => 8,
        Directions::DownRight => 4,
        Directions::Down => 0,
        Directions::DownLeft => 28,
        Directions::Left => 24,
        Directions::UpLeft => 20,
    }
}

/// In the standard table, each direction's clip is the four-frame range
/// starting at its standard first frame.
pub proof fn lemma_standard_clip(m: PlayerMovements, d: Directions)
    requires
        m.movements@ == standard_movements(),
    ensures
        m.clip_of(d).first_index == standard_clip_first(d),
        m.clip_of(d).last_index == standard_clip_first(d) + 3,
{
    match d {
        Directions::Up => {
            assert(m.clip_of(d) == standard_movements()[0]);
        },
        Directions::UpRight => {
            assert(m.clip_of(d) == standard_movements()[1]);
        },
        Directions::Right => {
            assert(m.clip_of(d) == standard_movements()[2]);
        },
        Directions::DownRight => {
            assert(m.clip_of(d) == standard_movements()[3]);
        },
        Directions::Down => {
            assert(m.clip_of(d) == standard_movements()[4]);
        },
        Directions::DownLeft => {
            assert(m.clip_of(d) == standard_movements()[5]);
        },
        Directions::Left => {
            assert(m.clip_of(d) == standard_movements()[6]);
        },
        Directions::UpLeft => {
            assert(m.clip_of(d) == standard_movements()[7]);
        },
    }
}

/// A direction change always resets the frame: the standard clips of
/// distinct directions are disjoint, so a frame lying in the old direction's
/// clip lies outside the new direction's clip, and the next qualifying
/// advance lands on the new clip's first frame whatever the boundary count.
pub proof fn lemma_direction_change_resets(
    m: PlayerMovements,
    d1: Directions,
    d2: Directions,
    frame: int,
    times: int,
)
    requires
        m.movements@ == standard_movements(),
        d1 != d2,
        m.clip_of(d1).first_index <= frame <= m.clip_of(d1).last_index,
    ensures
        spec_advance_frame(
            frame,
            m.clip_of(d2).first_index as int,
            m.clip_of(d2).last_index as int,
            times,
        ) == m.clip_of(d2).first_index,
{
    lemma_standard_clip(m, d1);
    lemma_standard_clip(m, d2);
}

} // verus!
