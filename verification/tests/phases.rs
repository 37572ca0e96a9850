//! Per-phase behaviour: integration, input mapping, orientation, and the
//! bounding-box overlap test on concrete values.
use flappy_core::entities::{GameState, Motion, Obstacle, Player, Segment};
use flappy_core::geom::{Vec2, aabb_hit};
use flappy_core::input::{jump, rotate};
use flappy_core::motion::{apply_acceleration, apply_velocity};
use flappy_core::world::World;
use flappy_core::{HALF_PI_NANORAD, UP_SPEED};

const UNIT: i64 = 1_000_000;

fn still_motion() -> Motion {
    Motion {
        velocity: Vec2 { x: 0, y: 0 },
        acceleration: Vec2 { x: 0, y: 0 },
    }
}

fn still_obstacle(x: i64, y: i64) -> Obstacle {
    Obstacle {
        position: Vec2 { x, y },
        motion: still_motion(),
        segments: Vec::new(),
    }
}

/// A quiet world: nothing moves, ten obstacles far to the right.
fn quiet_world() -> World {
    let mut obstacles = Vec::new();
    for i in 0..10 {
        obstacles.push(still_obstacle((1000 + 500 * i) * UNIT, 0));
    }
    World {
        half_width: 640 * UNIT,
        player: Player {
            position: Vec2 { x: 0, y: 0 },
            rotation: 0,
            size: Vec2 { x: 10 * UNIT, y: 10 * UNIT },
            motion: still_motion(),
        },
        obstacles,
        score: 0,
        state: GameState::Playing,
        collision_timer: 0,
        score_order: Vec::new(),
        score_cursor: 0,
    }
}

#[test]
fn integrator_concrete_scenario() {
    // Player at rest, acceleration (0, -2000) units/s^2; after dt = 0.1 s
    // the velocity is (0, -200) units/s and the height drops by 20 units.
    let mut w = quiet_world();
    w.player.motion.acceleration = Vec2 { x: 0, y: -2000 };
    apply_acceleration(&mut w, 100);
    assert_eq!(w.player.motion.velocity.x, 0);
    assert_eq!(w.player.motion.velocity.y, -200_000);
    apply_velocity(&mut w, 100);
    assert_eq!(w.player.position.x, 0);
    assert_eq!(w.player.position.y, -20 * UNIT);
}

#[test]
fn integrator_moves_obstacles_too() {
    let mut w = quiet_world();
    w.obstacles[2].motion.velocity = Vec2 { x: -100_000, y: 0 };
    let x0 = w.obstacles[2].position.x;
    apply_velocity(&mut w, 50);
    assert_eq!(w.obstacles[2].position.x, x0 - 100_000 * 50);
}

#[test]
fn obstacle_ramp_stops_at_target_maximum() {
    // The speed ramp ends at 1000 units/s leftward: one step that would
    // pass the target stops exactly on it.
    let mut w = quiet_world();
    w.obstacles[0].motion.velocity.x = -999_000;
    w.obstacles[0].motion.acceleration.x = -15;
    apply_acceleration(&mut w, 1000);
    assert_eq!(w.obstacles[0].motion.velocity.x, -1_000_000);
    // Further steps do not accelerate it past the target.
    apply_acceleration(&mut w, 1000);
    assert_eq!(w.obstacles[0].motion.velocity.x, -1_000_000);
}

#[test]
fn obstacle_ramp_below_target_is_plain_integration() {
    let mut w = quiet_world();
    w.obstacles[0].motion.velocity.x = -100_000;
    w.obstacles[0].motion.acceleration.x = -15;
    apply_acceleration(&mut w, 1000);
    assert_eq!(w.obstacles[0].motion.velocity.x, -115_000);
}

#[test]
fn player_fall_speed_is_never_clamped() {
    // Only the obstacles' horizontal ramp is bounded; the player's fall
    // under gravity passes the obstacles' target speed freely.
    let mut w = quiet_world();
    w.player.motion.acceleration = Vec2 { x: 0, y: -2000 };
    apply_acceleration(&mut w, 1000);
    assert_eq!(w.player.motion.velocity.y, -2_000_000);
    apply_acceleration(&mut w, 1000);
    assert_eq!(w.player.motion.velocity.y, -4_000_000);
}

#[test]
fn jump_overrides_falling_velocity() {
    let mut w = quiet_world();
    w.player.motion.velocity = Vec2 { x: 7, y: -987_654 };
    jump(&mut w, true);
    assert_eq!(w.player.motion.velocity.y, UP_SPEED);
    assert_eq!(w.player.motion.velocity.x, 7);
}

#[test]
fn jump_ignored_when_not_held() {
    let mut w = quiet_world();
    w.player.motion.velocity = Vec2 { x: 0, y: -42 };
    jump(&mut w, false);
    assert_eq!(w.player.motion.velocity.y, -42);
}

#[test]
fn jump_reapplies_while_held() {
    let mut w = quiet_world();
    jump(&mut w, true);
    w.player.motion.velocity.y = -1;
    jump(&mut w, true);
    assert_eq!(w.player.motion.velocity.y, UP_SPEED);
}

#[test]
fn rotation_follows_vertical_velocity() {
    let mut w = quiet_world();
    w.player.motion.velocity.y = 0;
    rotate(&mut w);
    assert_eq!(w.player.rotation, 0);
    // At full jump speed the angle is the 0.8 rad amplitude.
    w.player.motion.velocity.y = UP_SPEED;
    rotate(&mut w);
    assert_eq!(w.player.rotation, 800_000_000);
}

#[test]
fn rotation_clamped_to_quarter_turn() {
    let mut w = quiet_world();
    w.player.motion.velocity.y = 5_000_000;
    rotate(&mut w);
    assert_eq!(w.player.rotation, HALF_PI_NANORAD);
    w.player.motion.velocity.y = -5_000_000;
    rotate(&mut w);
    assert_eq!(w.player.rotation, -HALF_PI_NANORAD);
    for vy in [-3_000_000, -500_000, -1, 0, 1, 250_000, 4_000_000] {
        w.player.motion.velocity.y = vy;
        rotate(&mut w);
        assert!(w.player.rotation >= -HALF_PI_NANORAD);
        assert!(w.player.rotation <= HALF_PI_NANORAD);
    }
}

#[test]
fn aabb_overlap_cases() {
    let size = Vec2 { x: 10, y: 10 };
    let at = |x: i64, y: i64| Vec2 { x, y };
    // Clear overlap on both axes.
    assert!(aabb_hit(at(0, 0), size, at(9, 0), size));
    // Touching edges do not count as overlap.
    assert!(!aabb_hit(at(0, 0), size, at(10, 0), size));
    // Overlap on one axis only is no hit.
    assert!(!aabb_hit(at(0, 0), size, at(9, 25), size));
    assert!(!aabb_hit(at(0, 0), size, at(25, 9), size));
    // Symmetric.
    assert!(aabb_hit(at(9, 0), size, at(0, 0), size));
}

#[test]
fn aabb_respects_sizes() {
    let small = Vec2 { x: 2, y: 2 };
    let wide = Vec2 { x: 40, y: 2 };
    assert!(!aabb_hit(Vec2 { x: 0, y: 0 }, small, Vec2 { x: 10, y: 0 }, small));
    assert!(aabb_hit(Vec2 { x: 0, y: 0 }, wide, Vec2 { x: 10, y: 0 }, small));
}

#[test]
fn segments_ride_with_their_obstacle() {
    // A collider segment's world position is its owner's position plus
    // its fixed offset, so it moves rigidly with the unit.
    let mut w = quiet_world();
    w.obstacles[0].segments.push(Segment {
        offset: Vec2 { x: 0, y: -221 * UNIT },
        size: Vec2 { x: 52 * UNIT, y: 192 * UNIT },
    });
    w.obstacles[0].motion.velocity = Vec2 { x: -100_000, y: 0 };
    let off_before = w.obstacles[0].segments[0].offset;
    apply_velocity(&mut w, 100);
    assert_eq!(w.obstacles[0].segments[0].offset.x, off_before.x);
    assert_eq!(w.obstacles[0].segments[0].offset.y, off_before.y);
}
