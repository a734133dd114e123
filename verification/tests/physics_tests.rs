use dwarf_dungeon::fixed::Vec3Fix;
use dwarf_dungeon::physics::COLLISION_RADIUS_MILLI;
use dwarf_dungeon::physics::MotionState;
use dwarf_dungeon::physics::commit_if_clear;
use dwarf_dungeon::physics::propose_move;
use dwarf_dungeon::physics::velocity_delta;

fn motion_at(position: Vec3Fix) -> MotionState {
    MotionState {
        position,
        velocity: Vec3Fix { x: 0, y: 0, z: 0 },
        rotation: 0,
        grounded: true,
    }
}

#[test]
fn propose_move_is_a_pure_sum() {
    let current = Vec3Fix { x: 10, y: -20, z: 1000 };
    let delta = Vec3Fix { x: -30, y: 5, z: 0 };
    assert_eq!(propose_move(current, delta), Vec3Fix { x: -20, y: -15, z: 1000 });
}

#[test]
fn velocity_delta_truncates_toward_zero() {
    let v = Vec3Fix { x: 160_000, y: -160_000, z: 14 };
    let d = velocity_delta(v, 1, 15);
    assert_eq!(d, Vec3Fix { x: 10_666, y: -10_666, z: 0 });
}

#[test]
fn collider_inside_the_radius_rejects_wholesale() {
    let before = Vec3Fix { x: 0, y: 0, z: 1000 };
    let mut motion = motion_at(before);
    let candidate = Vec3Fix { x: 50_000, y: 0, z: 1000 };
    // a collider 25.999 units from the candidate: inside the radius
    let field = vec![Vec3Fix { x: 50_000 + COLLISION_RADIUS_MILLI - 1, y: 0, z: 1000 }];
    let committed = commit_if_clear(&mut motion, candidate, &field);
    assert!(!committed);
    // the position is bit-for-bit unchanged
    assert_eq!(motion.position, before);
}

#[test]
fn clear_field_commits_the_exact_candidate() {
    let mut motion = motion_at(Vec3Fix { x: 0, y: 0, z: 1000 });
    let candidate = Vec3Fix { x: 50_000, y: 0, z: 1000 };
    // every collider at distance >= 26 units, one exactly on the boundary
    let field = vec![
        Vec3Fix { x: 50_000 + COLLISION_RADIUS_MILLI, y: 0, z: 1000 },
        Vec3Fix { x: 0, y: 300_000, z: 1000 },
    ];
    let committed = commit_if_clear(&mut motion, candidate, &field);
    assert!(committed);
    assert_eq!(motion.position, candidate);
}

#[test]
fn empty_field_always_commits() {
    let mut motion = motion_at(Vec3Fix { x: 1, y: 2, z: 3 });
    let candidate = Vec3Fix { x: -7, y: 8, z: 9 };
    assert!(commit_if_clear(&mut motion, candidate, &Vec::new()));
    assert_eq!(motion.position, candidate);
}

#[test]
fn distance_is_euclidean_not_per_axis() {
    let mut motion = motion_at(Vec3Fix { x: 0, y: 0, z: 0 });
    let candidate = Vec3Fix { x: 0, y: 0, z: 0 };
    // 20 and 20 units on two axes: farther than 26 units euclidean
    let clear = vec![Vec3Fix { x: 20_000, y: 20_000, z: 0 }];
    assert!(commit_if_clear(&mut motion, candidate, &clear));
    // 18 and 18 units: closer than 26 units euclidean
    let near = vec![Vec3Fix { x: 18_000, y: 18_000, z: 0 }];
    assert!(!commit_if_clear(&mut motion, candidate, &near));
}

#[test]
fn rejection_keeps_velocity_and_grounding() {
    let mut motion = motion_at(Vec3Fix { x: 0, y: 0, z: 0 });
    motion.velocity = Vec3Fix { x: 77, y: -3, z: 0 };
    let candidate = Vec3Fix { x: 10, y: 0, z: 0 };
    let field = vec![candidate];
    assert!(!commit_if_clear(&mut motion, candidate, &field));
    assert_eq!(motion.velocity, Vec3Fix { x: 77, y: -3, z: 0 });
    assert!(motion.grounded);
}
