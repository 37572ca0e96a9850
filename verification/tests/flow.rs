//! Whole-world behaviour: recycling, collision detection, scoring, the
//! throttle, the startup layout and the state-machine gating.
use flappy_core::collision::check_for_collisions;
use flappy_core::entities::{GameState, Motion, Obstacle, Player, Segment};
use flappy_core::geom::Vec2;
use flappy_core::recycle::reuse_pipes;
use flappy_core::scheduler::tick;
use flappy_core::scoring::check_score;
use flappy_core::spawn::{AssetSizes, startup};
use flappy_core::world::World;
use flappy_core::{GRAVITY, HEIGHT_RANGE, PIPE_COUNT, SEGMENTS_PER_OBSTACLE};

const UNIT: i64 = 1_000_000;

fn still_motion() -> Motion {
    Motion {
        velocity: Vec2 { x: 0, y: 0 },
        acceleration: Vec2 { x: 0, y: 0 },
    }
}

fn still_obstacle(x: i64, y: i64) -> Obstacle {
    Obstacle {
        position: Vec2 { x, y },
        motion: still_motion(),
        segments: Vec::new(),
    }
}

/// A world with ten motionless obstacles at the given unit positions.
fn pool_world(xs: [i64; 10]) -> World {
    let mut obstacles = Vec::new();
    for (i, x) in xs.iter().enumerate() {
        obstacles.push(still_obstacle(x * UNIT, (i as i64) * UNIT));
    }
    World {
        half_width: 640 * UNIT,
        player: Player {
            position: Vec2 { x: 0, y: 0 },
            rotation: 0,
            size: Vec2 { x: 10 * UNIT, y: 10 * UNIT },
            motion: still_motion(),
        },
        obstacles,
        score: 0,
        state: GameState::Playing,
        collision_timer: 0,
        score_order: Vec::new(),
        score_cursor: 0,
    }
}

fn test_sizes() -> AssetSizes {
    AssetSizes {
        player: Vec2 { x: 34 * UNIT, y: 24 * UNIT },
        pipe_start: Vec2 { x: 52 * UNIT, y: 192 * UNIT },
        pipe_segment: Vec2 { x: 32 * UNIT, y: 96 * UNIT },
    }
}

#[test]
fn recycle_concrete_scenario() {
    // Pool 10, gap 500, half width 640, margin 100: the left boundary is
    // -740; an obstacle at -745 with the frontmost at 4100 moves to 4600.
    let mut w = pool_world([-745, 100, 600, 1100, 1600, 2100, 2600, 3100, 3600, 4100]);
    reuse_pipes(&mut w);
    assert_eq!(w.obstacles[0].position.x, 4600 * UNIT);
    // Its vertical position is preserved.
    assert_eq!(w.obstacles[0].position.y, 0);
    // Nobody else moved.
    assert_eq!(w.obstacles[1].position.x, 100 * UNIT);
    assert_eq!(w.obstacles[9].position.x, 4100 * UNIT);
    assert_eq!(w.obstacles.len(), 10);
}

#[test]
fn recycle_chains_without_double_placing() {
    // Two obstacles below the boundary in one tick: the first becomes the
    // new frontmost, so the second lands one further gap out.
    let mut w = pool_world([-745, -800, 600, 1100, 1600, 2100, 2600, 3100, 3600, 4100]);
    reuse_pipes(&mut w);
    assert_eq!(w.obstacles[0].position.x, 4600 * UNIT);
    assert_eq!(w.obstacles[1].position.x, 5100 * UNIT);
}

#[test]
fn recycle_keeps_everything_above_boundary_still() {
    let xs = [-740, -700, 0, 700, 1100, 1600, 2100, 2600, 3100, 4100];
    let mut w = pool_world(xs);
    reuse_pipes(&mut w);
    for (i, x) in xs.iter().enumerate() {
        assert_eq!(w.obstacles[i].position.x, x * UNIT);
    }
}

#[test]
fn collision_sets_gameover() {
    let mut w = pool_world([5, 600, 1100, 1600, 2100, 2600, 3100, 3600, 4100, 4600]);
    w.obstacles[0].segments.push(Segment {
        offset: Vec2 { x: 0, y: 0 },
        size: Vec2 { x: 10 * UNIT, y: 10 * UNIT },
    });
    check_for_collisions(&mut w);
    assert_eq!(w.state, GameState::GameOver);
}

#[test]
fn collision_ignores_disjoint_segments() {
    let mut w = pool_world([600, 1100, 1600, 2100, 2600, 3100, 3600, 4100, 4600, 5100]);
    w.obstacles[0].segments.push(Segment {
        offset: Vec2 { x: 0, y: 0 },
        size: Vec2 { x: 10 * UNIT, y: 10 * UNIT },
    });
    check_for_collisions(&mut w);
    assert_eq!(w.state, GameState::Playing);
}

#[test]
fn score_counts_each_crossing_once() {
    // The tracker sorts by current position, so the obstacle at -5 is
    // first in order and has already crossed below zero.
    let mut w = pool_world([600, 1100, 1600, -5, 2100, 2600, 3100, 3600, 4100, 4600]);
    check_score(&mut w);
    assert_eq!(w.score, 1);
    assert_eq!(w.score_cursor, 1);
    assert_eq!(w.score_order[0], 3);
    // The next tracked obstacle has not crossed: no further point.
    check_score(&mut w);
    assert_eq!(w.score, 1);
    assert_eq!(w.score_cursor, 1);
}

#[test]
fn score_waits_for_crossing() {
    let mut w = pool_world([600, 1100, 1600, 2100, 2600, 3100, 3600, 4100, 4600, 5100]);
    check_score(&mut w);
    assert_eq!(w.score, 0);
    assert_eq!(w.score_cursor, 0);
    assert_eq!(w.score_order.len(), 10);
    // Once the tracked obstacle crosses below zero, exactly one point.
    w.obstacles[w.score_order[0]].position.x = -1;
    check_score(&mut w);
    assert_eq!(w.score, 1);
    assert_eq!(w.score_cursor, 1);
}

#[test]
fn score_handles_equal_positions() {
    // Two obstacles at the same crossed position: ties sit next to each
    // other in the cached order and each is counted exactly once.
    let mut w = pool_world([-5, -5, 600, 1100, 1600, 2100, 2600, 3100, 3600, 4100]);
    check_score(&mut w);
    check_score(&mut w);
    assert_eq!(w.score, 2);
    assert_eq!(w.score_cursor, 2);
    check_score(&mut w);
    assert_eq!(w.score, 2);
}

#[test]
fn score_order_is_cached_once() {
    // The ordering is computed lazily once and is not re-sorted when
    // obstacles move or recycle afterwards.
    let mut w = pool_world([600, 1100, 1600, 2100, 2600, 3100, 3600, 4100, 4600, 5100]);
    check_score(&mut w);
    let cached = w.score_order.clone();
    w.obstacles[0].position.x = 9_000 * UNIT;
    w.obstacles[9].position.x = 100 * UNIT;
    check_score(&mut w);
    assert_eq!(w.score_order, cached);
}

#[test]
fn score_cursor_wraps_around() {
    let mut w = pool_world([-10, -9, -8, -7, -6, -5, -4, -3, -2, -1]);
    for _ in 0..10 {
        check_score(&mut w);
    }
    assert_eq!(w.score, 10);
    assert_eq!(w.score_cursor, 0);
}

#[test]
fn startup_lays_out_the_field() {
    let w = startup(640 * UNIT, test_sizes());
    assert_eq!(w.obstacles.len(), PIPE_COUNT);
    assert_eq!(w.score, 0);
    assert_eq!(w.state, GameState::Playing);
    assert_eq!(w.collision_timer, 0);
    assert_eq!(w.score_order.len(), 0);
    assert_eq!(w.player.position.x, 0);
    assert_eq!(w.player.position.y, 0);
    assert_eq!(w.player.motion.acceleration.y, GRAVITY);
    for i in 0..PIPE_COUNT {
        let o = &w.obstacles[i];
        // Right border 640 + 100, then one gap of 500 per obstacle.
        assert_eq!(o.position.x, (740 + 500 * i as i64) * UNIT);
        assert!(o.position.y >= 0);
        assert!((o.position.y as u64) < HEIGHT_RANGE);
        assert_eq!(o.motion.velocity.x, -100_000);
        assert_eq!(o.motion.acceleration.x, -15);
        assert_eq!(o.segments.len(), SEGMENTS_PER_OBSTACLE);
        // The two pipe starts sit a window's half plus half their height
        // from the centre; the first pieces continue past them.
        assert_eq!(o.segments[0].offset.y, -221 * UNIT);
        assert_eq!(o.segments[1].offset.y, -269 * UNIT);
        assert_eq!(o.segments[11].offset.y, 221 * UNIT);
        assert_eq!(o.segments[12].offset.y, 269 * UNIT);
    }
}

#[test]
fn layout_places_pipes_at_given_heights() {
    let heights: Vec<i64> = (0..10).map(|i| i * 1000).collect();
    let w = flappy_core::spawn::initial_layout(640 * UNIT, test_sizes(), &heights);
    for i in 0..PIPE_COUNT {
        assert_eq!(w.obstacles[i].position.y, (i as i64) * 1000);
        assert_eq!(w.obstacles[i].position.x, (740 + 500 * i as i64) * UNIT);
        // Pipe starts carry the pipe-start size, pieces the piece size.
        assert_eq!(w.obstacles[i].segments[0].size.y, 192 * UNIT);
        assert_eq!(w.obstacles[i].segments[5].size.y, 96 * UNIT);
        assert_eq!(w.obstacles[i].segments[21].offset.y, (221 + 48 * 19) * UNIT);
    }
}

#[test]
fn tick_runs_phases_in_order() {
    let mut w = pool_world([600, 1100, 1600, 2100, 2600, 3100, 3600, 4100, 4600, 5100]);
    w.player.motion.acceleration = Vec2 { x: 0, y: GRAVITY };
    tick(&mut w, 100, true);
    // Jump first (500 units/s up), then gravity for 0.1 s (200 down),
    // then the position moves by the new velocity, then the orientation.
    assert_eq!(w.player.motion.velocity.y, 300_000);
    assert_eq!(w.player.position.y, 30 * UNIT);
    assert_eq!(w.player.rotation, 480_000_000);
    assert_eq!(w.obstacles.len(), 10);
}

#[test]
fn tick_throttles_collision_checks() {
    let mut w = pool_world([5, 600, 1100, 1600, 2100, 2600, 3100, 3600, 4100, 4600]);
    w.obstacles[0].segments.push(Segment {
        offset: Vec2 { x: 0, y: 0 },
        size: Vec2 { x: 10 * UNIT, y: 10 * UNIT },
    });
    // Under a second of accumulated time: the detector does not run yet.
    tick(&mut w, 400, false);
    assert_eq!(w.state, GameState::Playing);
    assert_eq!(w.collision_timer, 400);
    // Crossing the threshold: the detector runs, ends the run, and the
    // accumulator is reset.
    tick(&mut w, 700, false);
    assert_eq!(w.state, GameState::GameOver);
    assert_eq!(w.collision_timer, 0);
}

#[test]
fn collision_cadence_is_once_per_period() {
    // Without any overlap, the throttle's accumulator shows the cadence:
    // the detector runs once per accumulated second, not on every tick
    // after the first one.
    let mut w = pool_world([600, 1100, 1600, 2100, 2600, 3100, 3600, 4100, 4600, 5100]);
    tick(&mut w, 600, false);
    assert_eq!(w.collision_timer, 600);
    tick(&mut w, 600, false);
    // 1200 ms accumulated: the detector ran and the accumulator reset.
    assert_eq!(w.collision_timer, 0);
    tick(&mut w, 600, false);
    // A fresh period has to accumulate before the next run.
    assert_eq!(w.collision_timer, 600);
    tick(&mut w, 600, false);
    assert_eq!(w.collision_timer, 0);
    assert_eq!(w.state, GameState::Playing);
}

#[test]
fn tick_after_gameover_changes_nothing() {
    let mut w = pool_world([-745, 600, 1100, 1600, 2100, 2600, 3100, 3600, 4100, 4600]);
    w.state = GameState::GameOver;
    w.player.motion.velocity = Vec2 { x: 3, y: -4 };
    w.score = 7;
    w.collision_timer = 999;
    for _ in 0..3 {
        tick(&mut w, 250, true);
    }
    // A terminal tick accepts any time step: nothing runs with it.
    tick(&mut w, u64::MAX, true);
    assert_eq!(w.state, GameState::GameOver);
    assert_eq!(w.score, 7);
    assert_eq!(w.collision_timer, 999);
    assert_eq!(w.player.motion.velocity.y, -4);
    assert_eq!(w.player.position.x, 0);
    assert_eq!(w.obstacles[0].position.x, -745 * UNIT);
    assert_eq!(w.obstacles.len(), 10);
}

#[test]
fn ready_for_tick_accepts_ordinary_worlds() {
    let w = startup(640 * UNIT, test_sizes());
    assert!(flappy_core::scheduler::ready_for_tick(&w, 16));
    assert!(flappy_core::scheduler::ready_for_tick(&w, 1000));
    assert!(!flappy_core::scheduler::ready_for_tick(&w, 1001));
}

#[test]
fn ready_for_tick_rejects_runaway_values() {
    let mut w = pool_world([600, 1100, 1600, 2100, 2600, 3100, 3600, 4100, 4600, 5100]);
    assert!(flappy_core::scheduler::ready_for_tick(&w, 16));
    w.obstacles[4].motion.velocity.y = 600_000_000;
    assert!(!flappy_core::scheduler::ready_for_tick(&w, 16));
    w.obstacles[4].motion.velocity.y = 0;
    w.player.position.x = 200_000_000_000;
    assert!(!flappy_core::scheduler::ready_for_tick(&w, 16));
}

#[test]
fn score_never_decreases_across_ticks() {
    let mut w = pool_world([-1, -2, -3, 600, 1100, 1600, 2100, 2600, 3100, 4100]);
    let mut last = 0u64;
    for _ in 0..20 {
        tick(&mut w, 16, false);
        assert!(w.score >= last);
        assert_eq!(w.obstacles.len(), 10);
        last = w.score;
    }
}
