//! The movement integrator: every tick it advances velocity by acceleration
//! and then position by the advanced velocity, for the player and every
//! obstacle unit, over a variable time step.
use vstd::prelude::*;

use crate::entities::{Motion, MotionM, ObstacleM, PlayerM, motion_in_range};
use crate::geom::{Vec2, Vec2M, in_coord_range};
use crate::world::{World, WorldM, world_wf};
use crate::{COORD_LIMIT, DT_LIMIT, PIPE_MAX_SPEED};

verus! {

/// A product of a bounded factor and a bounded nonnegative factor is
/// bounded by the product of the bounds.
pub proof fn lemma_mul_bounds(a: int, d: int, m: int, dm: int)
    by (nonlinear_arith)
    requires
        -m <= a <= m,
        0 <= d <= dm,
        0 <= m,
    ensures
        -(m * dm) <= a * d <= m * dm,
{
}

/// One velocity integration step: `velocity + acceleration * dt`.
pub open spec fn accel_motion_m(m: MotionM, dt: int) -> MotionM {
    MotionM {
        velocity: Vec2M {
            x: m.velocity.x + m.acceleration.x * dt,
            y: m.velocity.y + m.acceleration.y * dt,
        },
        acceleration: m.acceleration,
    }
}

/// One horizontal velocity step of the bounded speed ramp: a leftward
/// acceleration carries the speed toward the target maximum and ceases
/// there — it never ramps the speed past the target, and a speed already
/// at or beyond it is not accelerated further.
pub open spec fn ramp_vx(vx: int, ax: int, dt: int) -> int {
    let nv = vx + ax * dt;
    if ax >= 0 || nv >= -PIPE_MAX_SPEED {
        nv
    } else if vx <= -PIPE_MAX_SPEED {
        vx
    } else {
        -PIPE_MAX_SPEED as int
    }
}

/// One velocity integration step for an obstacle unit: the horizontal
/// axis follows the bounded ramp, the vertical axis integrates plainly.
pub open spec fn accel_obstacle_motion_m(m: MotionM, dt: int) -> MotionM {
    MotionM {
        velocity: Vec2M {
            x: ramp_vx(m.velocity.x, m.acceleration.x, dt),
            y: m.velocity.y + m.acceleration.y * dt,
        },
        acceleration: m.acceleration,
    }
}

/// A product of a nonpositive and a nonnegative factor is nonpositive.
pub proof fn lemma_mul_sign(a: int, d: int)
    by (nonlinear_arith)
    requires
        a <= 0,
        0 <= d,
    ensures
        a * d <= 0,
{
}

/// Law (bounded ramp): one velocity step never ramps an obstacle's
/// leftward speed past the target maximum, and an obstacle already at or
/// beyond the target is not accelerated further leftward.
pub proof fn lemma_ramp_bounded(vx: int, ax: int, dt: int)
    requires
        ax <= 0,
        0 <= dt,
    ensures
        vx >= -PIPE_MAX_SPEED ==> ramp_vx(vx, ax, dt) >= -PIPE_MAX_SPEED,
        vx <= -PIPE_MAX_SPEED ==> ramp_vx(vx, ax, dt) == vx,
{
    lemma_mul_sign(ax, dt);
}

/// One position integration step: `position + velocity * dt`.
pub open spec fn advance_pos_m(p: Vec2M, v: Vec2M, dt: int) -> Vec2M {
    Vec2M { x: p.x + v.x * dt, y: p.y + v.y * dt }
}

/// The whole world after the velocity integration phase.
pub open spec fn accelerate_m(w: WorldM, dt: int) -> WorldM {
    WorldM {
        player: PlayerM { motion: accel_motion_m(w.player.motion, dt), ..w.player },
        obstacles: w.obstacles.map_values(
            |o: ObstacleM| ObstacleM { motion: accel_obstacle_motion_m(o.motion, dt), ..o },
        ),
        ..w
    }
}

/// The whole world after the position integration phase.
pub open spec fn advance_m(w: WorldM, dt: int) -> WorldM {
    WorldM {
        player: PlayerM {
            position: advance_pos_m(w.player.position, w.player.motion.velocity, dt),
            ..w.player
        },
        obstacles: w.obstacles.map_values(
            |o: ObstacleM| ObstacleM {
                position: advance_pos_m(o.position, o.motion.velocity, dt),
                ..o
            },
        ),
        ..w
    }
}

/// Every velocity the integration step produces stays within the global
/// magnitude bound (the machine limit of the representation).
pub open spec fn accel_fits(w: WorldM, dt: int) -> bool {
    &&& motion_in_range(accel_motion_m(w.player.motion, dt))
    &&& forall|i: int|
        0 <= i < w.obstacles.len() ==> motion_in_range(
            accel_obstacle_motion_m(#[trigger] w.obstacles[i].motion, dt),
        )
}

/// Every position the integration step produces stays within the global
/// magnitude bound (the machine limit of the representation).
pub open spec fn advance_fits(w: WorldM, dt: int) -> bool {
    &&& in_coord_range(advance_pos_m(w.player.position, w.player.motion.velocity, dt))
    &&& forall|i: int|
        0 <= i < w.obstacles.len() ==> in_coord_range(
            advance_pos_m(
                #[trigger] w.obstacles[i].position,
                w.obstacles[i].motion.velocity,
                dt,
            ),
        )
}

/// Integrate one motion record's velocity: `velocity + acceleration * dt`.
fn accelerate_motion(m: Motion, dt: i64) -> (r: Motion)
    requires
        0 <= dt <= DT_LIMIT,
        motion_in_range(m@),
        motion_in_range(accel_motion_m(m@, dt as int)),
    ensures
        r@ == accel_motion_m(m@, dt as int),
{
    proof {
        lemma_mul_bounds(m.acceleration.x as int, dt as int, COORD_LIMIT as int, DT_LIMIT as int);
        lemma_mul_bounds(m.acceleration.y as int, dt as int, COORD_LIMIT as int, DT_LIMIT as int);
    }
    Motion {
        velocity: Vec2 {
            x: m.velocity.x + m.acceleration.x * dt,
            y: m.velocity.y + m.acceleration.y * dt,
        },
        acceleration: m.acceleration,
    }
}

/// Integrate one obstacle's velocity: the bounded ramp on the horizontal
/// axis, plain integration on the vertical axis.
fn accelerate_obstacle_motion(m: Motion, dt: i64) -> (r: Motion)
    requires
        0 <= dt <= DT_LIMIT,
        motion_in_range(m@),
        motion_in_range(accel_obstacle_motion_m(m@, dt as int)),
    ensures
        r@ == accel_obstacle_motion_m(m@, dt as int),
{
    proof {
        lemma_mul_bounds(m.acceleration.x as int, dt as int, COORD_LIMIT as int, DT_LIMIT as int);
        lemma_mul_bounds(m.acceleration.y as int, dt as int, COORD_LIMIT as int, DT_LIMIT as int);
    }
    let nv = m.velocity.x + m.acceleration.x * dt;
    let vx = if m.acceleration.x >= 0 || nv >= -PIPE_MAX_SPEED {
        nv
    } else if m.velocity.x <= -PIPE_MAX_SPEED {
        m.velocity.x
    } else {
        -PIPE_MAX_SPEED
    };
    Motion {
        velocity: Vec2 { x: vx, y: m.velocity.y + m.acceleration.y * dt },
        acceleration: m.acceleration,
    }
}

/// Advance one position by `velocity * dt`.
fn advance_position(p: Vec2, v: Vec2, dt: i64) -> (r: Vec2)
    requires
        0 <= dt <= DT_LIMIT,
        in_coord_range(v@),
        in_coord_range(advance_pos_m(p@, v@, dt as int)),
    ensures
        r@ == advance_pos_m(p@, v@, dt as int),
{
    proof {
        lemma_mul_bounds(v.x as int, dt as int, COORD_LIMIT as int, DT_LIMIT as int);
        lemma_mul_bounds(v.y as int, dt as int, COORD_LIMIT as int, DT_LIMIT as int);
    }
    Vec2 { x: p.x + v.x * dt, y: p.y + v.y * dt }
}

/// Velocity integration phase: for every entity with motion data,
/// `velocity <- velocity + acceleration * dt`. The player's velocity is
/// never clamped; an obstacle's horizontal speed follows the bounded
/// ramp, which ends at the target maximum.
#[verifier::loop_isolation(false)]
pub fn apply_acceleration(w: &mut World, dt: u64)
    requires
        old(w).wf(),
        dt <= DT_LIMIT,
        accel_fits(old(w)@, dt as int),
    ensures
        final(w)@ == accelerate_m(old(w)@, dt as int),
        final(w).wf(),
{
    let ghost goal = accelerate_m(old(w)@, dt as int);
    let dt_i = dt as i64;
    w.player.motion = accelerate_motion(w.player.motion, dt_i);
    let n = w.obstacles.len();
    let mut i: usize = 0;
    while i < n
        invariant
            i <= n,
            w.obstacles.len() == n,
            w.half_width == old(w).half_width,
            w.player@ == goal.player,
            w.score == old(w).score,
            w.state == old(w).state,
            w.collision_timer == old(w).collision_timer,
            w.score_order == old(w).score_order,
            w.score_cursor == old(w).score_cursor,
            forall|k: int| 0 <= k < i ==> (#[trigger] w.obstacles@[k])@ == goal.obstacles[k],
            forall|k: int| i <= k < n ==> (#[trigger] w.obstacles@[k])@ == old(w)@.obstacles[k],
        decreases n - i,
    {
        proof {
            assert(w@.obstacles[i as int] == w.obstacles@[i as int]@);
        }
        let nm = accelerate_obstacle_motion(w.obstacles[i].motion, dt_i);
        let o = &mut w.obstacles[i];
        o.motion = nm;
        proof {
            assert(w.obstacles@[i as int]@ =~= goal.obstacles[i as int]);
        }
        i = i + 1;
    }
    proof {
        assert forall|k: int| 0 <= k < n implies w@.obstacles[k] == goal.obstacles[k] by {
            assert(w@.obstacles[k] == w.obstacles@[k]@);
        }
        assert(w@.obstacles =~= goal.obstacles);
        assert(w@ =~= goal);
    }
}

/// Position integration phase: for every entity with motion data,
/// `position <- position + velocity * dt`, with the velocity already
/// advanced by this tick's acceleration.
#[verifier::loop_isolation(false)]
pub fn apply_velocity(w: &mut World, dt: u64)
    requires
        old(w).wf(),
        dt <= DT_LIMIT,
        advance_fits(old(w)@, dt as int),
    ensures
        final(w)@ == advance_m(old(w)@, dt as int),
        final(w).wf(),
{
    let ghost goal = advance_m(old(w)@, dt as int);
    let dt_i = dt as i64;
    w.player.position = advance_position(w.player.position, w.player.motion.velocity, dt_i);
    let n = w.obstacles.len();
    let mut i: usize = 0;
    while i < n
        invariant
            i <= n,
            w.obstacles.len() == n,
            w.half_width == old(w).half_width,
            w.player@ == goal.player,
            w.score == old(w).score,
            w.state == old(w).state,
            w.collision_timer == old(w).collision_timer,
            w.score_order == old(w).score_order,
            w.score_cursor == old(w).score_cursor,
            forall|k: int| 0 <= k < i ==> (#[trigger] w.obstacles@[k])@ == goal.obstacles[k],
            forall|k: int| i <= k < n ==> (#[trigger] w.obstacles@[k])@ == old(w)@.obstacles[k],
        decreases n - i,
    {
        proof {
            assert(w@.obstacles[i as int] == w.obstacles@[i as int]@);
        }
        let np = advance_position(w.obstacles[i].position, w.obstacles[i].motion.velocity, dt_i);
        let o = &mut w.obstacles[i];
        o.position = np;
        proof {
            assert(w.obstacles@[i as int]@ =~= goal.obstacles[i as int]);
        }
        i = i + 1;
    }
    proof {
        assert forall|k: int| 0 <= k < n implies w@.obstacles[k] == goal.obstacles[k] by {
            assert(w@.obstacles[k] == w.obstacles@[k]@);
        }
        assert(w@.obstacles =~= goal.obstacles);
        assert(w@ =~= goal);
    }
}

} // verus!
