//! The frame scheduler: once per tick it runs the gameplay phases in their
//! fixed dependency order — input, velocity then position integration,
//! orientation and recycling, throttled collision detection, scoring —
//! each with exclusive access to the world. The whole set is gated by the
//! game state machine: once GameOver, none of them run.
use vstd::prelude::*;

use crate::collision::{check_for_collisions, collide_now_m};
use crate::entities::{GameState, ObstacleM, motion_in_range};
use crate::geom::{in_coord_range, vec_within, within_bound};
use crate::input::{jump, jump_m, rotate, rotate_m};
use crate::motion::{
    accel_fits, accel_motion_m, accel_obstacle_motion_m, accelerate_m, advance_fits, advance_m,
    advance_pos_m, apply_acceleration, apply_velocity, lemma_mul_bounds,
};
use crate::recycle::{
    lemma_front_before_bound, lemma_front_before_grows, lemma_max_x_range, lemma_recycle_len,
    lemma_recycle_placement, max_x, recycle_fits, recycle_m, reuse_pipes,
};
use crate::scoring::{check_score, lemma_score_rel_frame, lemma_score_rel_monotone, score_rel};
use crate::world::{World, WorldM, left_boundary, world_wf};
use crate::{COLLISION_PERIOD, DT_LIMIT, PIPE_GAP, SAFE_ACC, SAFE_DT, SAFE_POS, SAFE_VEL};

verus! {

/// The collision throttle after one tick: the accumulator grows by the
/// elapsed time.
pub open spec fn throttle_m(w: WorldM, dt: int) -> WorldM {
    WorldM { collision_timer: w.collision_timer + dt, ..w }
}

/// The world after the throttled collision phase: the detector runs only
/// once the accumulated elapsed time reaches the threshold, and each run
/// resets the accumulator — a once-per-period cadence, not every tick.
pub open spec fn collide_m(w: WorldM, dt: int) -> WorldM {
    let w1 = throttle_m(w, dt);
    if w1.collision_timer >= COLLISION_PERIOD {
        collide_now_m(WorldM { collision_timer: 0, ..w1 })
    } else {
        w1
    }
}

/// The deterministic prefix of a Playing tick: input mapping, velocity
/// and position integration, orientation, recycling, and the throttled
/// collision check, in that order.
pub open spec fn pre_score_m(w: WorldM, dt: int, held: bool) -> WorldM {
    collide_m(recycle_m(rotate_m(advance_m(accelerate_m(jump_m(w, held), dt), dt))), dt)
}

/// Every intermediate state of a Playing tick stays within the machine
/// limits of the fixed-point representation; trivially true of a tick
/// that the terminal state gates out.
pub open spec fn tick_fits(w: WorldM, dt: int, held: bool) -> bool {
    ||| w.state == GameState::GameOver
    ||| {
        let w1 = jump_m(w, held);
        let w2 = accelerate_m(w1, dt);
        let w3 = advance_m(w2, dt);
        let w4 = rotate_m(w3);
        &&& 0 <= dt <= DT_LIMIT
        &&& accel_fits(w1, dt)
        &&& advance_fits(w2, dt)
        &&& recycle_fits(w4)
        &&& w.score < u64::MAX
    }
}

/// How one tick relates the worlds before and after it: in GameOver
/// nothing runs and nothing changes; in Playing the phases run in their
/// fixed order, ending with the scoring phase's relation.
pub open spec fn tick_rel(w: WorldM, w2: WorldM, dt: int, held: bool) -> bool {
    if w.state == GameState::GameOver {
        w2 == w
    } else {
        score_rel(pre_score_m(w, dt, held), w2)
    }
}

/// Law (terminal gating): once the state machine is in GameOver, a tick
/// leaves the whole world untouched — no input mapping, integration,
/// recycling, collision detection or scoring mutates anything.
pub proof fn lemma_gameover_frozen(w: WorldM, w2: WorldM, dt: int, held: bool)
    requires
        w.state == GameState::GameOver,
        tick_rel(w, w2, dt, held),
    ensures
        w2 == w,
{
}

/// Law (pool-size invariant): whatever a tick does, it never creates or
/// destroys obstacle units — the pool's cardinality is preserved.
pub proof fn lemma_tick_pool_size(w: WorldM, w2: WorldM, dt: int, held: bool)
    requires
        tick_rel(w, w2, dt, held),
    ensures
        w2.obstacles.len() == w.obstacles.len(),
{
    if w.state != GameState::GameOver {
        let w4 = rotate_m(advance_m(accelerate_m(jump_m(w, held), dt), dt));
        lemma_recycle_len(w4.obstacles, 0, max_x(w4.obstacles), left_boundary(w4));
        lemma_score_rel_frame(pre_score_m(w, dt, held), w2);
    }
}

/// Law (score monotonicity across a tick): the score never decreases, and
/// one tick raises it by at most one.
pub proof fn lemma_tick_score_monotone(w: WorldM, w2: WorldM, dt: int, held: bool)
    requires
        tick_rel(w, w2, dt, held),
    ensures
        w.score <= w2.score,
        w2.score <= w.score + 1,
{
    if w.state != GameState::GameOver {
        lemma_score_rel_monotone(pre_score_m(w, dt, held), w2);
    }
}

/// Law (terminal state is terminal): no tick ever moves the state machine
/// from GameOver back to Playing.
pub proof fn lemma_gameover_terminal(w: WorldM, w2: WorldM, dt: int, held: bool)
    requires
        w.state == GameState::GameOver,
        tick_rel(w, w2, dt, held),
    ensures
        w2.state == GameState::GameOver,
{
}

/// Conservative runtime margins: a world comfortably inside them, with a
/// time step of at most `SAFE_DT` milliseconds, is known to keep every
/// intermediate state of a tick within the machine limits.
pub open spec fn safe_margins(w: WorldM, dt: int) -> bool {
    &&& 0 <= dt <= SAFE_DT
    &&& w.score < u64::MAX
    &&& within_bound(w.player.position, SAFE_POS as int)
    &&& within_bound(w.player.motion.velocity, SAFE_VEL as int)
    &&& within_bound(w.player.motion.acceleration, SAFE_ACC as int)
    &&& forall|i: int|
        0 <= i < w.obstacles.len() ==> {
            let o = #[trigger] w.obstacles[i];
            &&& within_bound(o.position, SAFE_POS as int)
            &&& within_bound(o.motion.velocity, SAFE_VEL as int)
            &&& within_bound(o.motion.acceleration, SAFE_ACC as int)
        }
}

/// The conservative margins are enough: under them every intermediate
/// state of a tick stays within the machine limits, whatever the input.
pub proof fn lemma_margins_allow_tick(w: WorldM, dt: int, held: bool)
    requires
        world_wf(w),
        safe_margins(w, dt),
    ensures
        tick_fits(w, dt, held),
{
    let w1 = jump_m(w, held);
    let w2 = accelerate_m(w1, dt);
    let w3 = advance_m(w2, dt);
    let w4 = rotate_m(w3);
    let vb: int = SAFE_VEL + SAFE_ACC * SAFE_DT;
    assert(motion_in_range(accel_motion_m(w1.player.motion, dt))) by {
        lemma_mul_bounds(
            w1.player.motion.acceleration.x,
            dt,
            SAFE_ACC as int,
            SAFE_DT as int,
        );
        lemma_mul_bounds(
            w1.player.motion.acceleration.y,
            dt,
            SAFE_ACC as int,
            SAFE_DT as int,
        );
    }
    assert forall|i: int| 0 <= i < w1.obstacles.len() implies motion_in_range(
        accel_motion_m(#[trigger] w1.obstacles[i].motion, dt),
    ) by {
        assert(w1.obstacles[i] == w.obstacles[i]);
        lemma_mul_bounds(
            w.obstacles[i].motion.acceleration.x,
            dt,
            SAFE_ACC as int,
            SAFE_DT as int,
        );
        lemma_mul_bounds(
            w.obstacles[i].motion.acceleration.y,
            dt,
            SAFE_ACC as int,
            SAFE_DT as int,
        );
    }
    assert(accel_fits(w1, dt));
    assert(in_coord_range(
        advance_pos_m(w2.player.position, w2.player.motion.velocity, dt),
    )) by {
        lemma_mul_bounds(
            w1.player.motion.acceleration.x,
            dt,
            SAFE_ACC as int,
            SAFE_DT as int,
        );
        lemma_mul_bounds(
            w1.player.motion.acceleration.y,
            dt,
            SAFE_ACC as int,
            SAFE_DT as int,
        );
        lemma_mul_bounds(w2.player.motion.velocity.x, dt, vb, SAFE_DT as int);
        lemma_mul_bounds(w2.player.motion.velocity.y, dt, vb, SAFE_DT as int);
    }
    assert forall|i: int| 0 <= i < w2.obstacles.len() implies in_coord_range(
        advance_pos_m(
            #[trigger] w2.obstacles[i].position,
            w2.obstacles[i].motion.velocity,
            dt,
        ),
    ) by {
        assert(w2.obstacles[i] == (ObstacleM {
            motion: accel_obstacle_motion_m(w.obstacles[i].motion, dt),
            ..w.obstacles[i]
        }));
        lemma_mul_bounds(
            w.obstacles[i].motion.acceleration.x,
            dt,
            SAFE_ACC as int,
            SAFE_DT as int,
        );
        lemma_mul_bounds(
            w.obstacles[i].motion.acceleration.y,
            dt,
            SAFE_ACC as int,
            SAFE_DT as int,
        );
        lemma_mul_bounds(w2.obstacles[i].motion.velocity.x, dt, vb, SAFE_DT as int);
        lemma_mul_bounds(w2.obstacles[i].motion.velocity.y, dt, vb, SAFE_DT as int);
    }
    assert(advance_fits(w2, dt));
    let pb: int = SAFE_POS + vb * SAFE_DT;
    assert forall|i: int| 0 <= i < w4.obstacles.len() implies -pb <= (
    #[trigger] w4.obstacles[i].position.x) <= pb && -pb <= w4.obstacles[i].position.y
        <= pb by {
        assert(w2.obstacles[i] == (ObstacleM {
            motion: accel_obstacle_motion_m(w.obstacles[i].motion, dt),
            ..w.obstacles[i]
        }));
        assert(w4.obstacles[i] == (ObstacleM {
            position: advance_pos_m(w2.obstacles[i].position, w2.obstacles[i].motion.velocity, dt),
            ..w2.obstacles[i]
        }));
        lemma_mul_bounds(
            w.obstacles[i].motion.acceleration.x,
            dt,
            SAFE_ACC as int,
            SAFE_DT as int,
        );
        lemma_mul_bounds(
            w.obstacles[i].motion.acceleration.y,
            dt,
            SAFE_ACC as int,
            SAFE_DT as int,
        );
        lemma_mul_bounds(w2.obstacles[i].motion.velocity.x, dt, vb, SAFE_DT as int);
        lemma_mul_bounds(w2.obstacles[i].motion.velocity.y, dt, vb, SAFE_DT as int);
    }
    lemma_max_x_range(w4.obstacles, w4.obstacles.len(), pb);
    let front0 = max_x(w4.obstacles);
    let left = left_boundary(w4);
    assert forall|i: int| 0 <= i < w4.obstacles.len() implies in_coord_range(
        #[trigger] recycle_m(w4).obstacles[i].position,
    ) by {
        lemma_recycle_placement(w4.obstacles, 0, front0, left, i);
        if w4.obstacles[i].position.x < left {
            lemma_front_before_bound(w4.obstacles, 0, i, front0, left);
            lemma_front_before_grows(w4.obstacles, 0, i, front0, left);
            assert(i * PIPE_GAP <= 10 * PIPE_GAP);
        }
    }
    assert(recycle_fits(w4));
}

/// Check, before a tick, that the world sits comfortably within the
/// conservative margins; when it does, a tick of at most `SAFE_DT`
/// milliseconds is known to meet all of `tick`'s machine limits.
#[verifier::loop_isolation(false)]
pub fn ready_for_tick(w: &World, dt: u64) -> (r: bool)
    requires
        w.wf(),
    ensures
        r == safe_margins(w@, dt as int),
        r ==> forall|held: bool| #[trigger] tick_fits(w@, dt as int, held),
{
    if dt > SAFE_DT || w.score == u64::MAX {
        return false;
    }
    if !vec_within(w.player.position, SAFE_POS) || !vec_within(
        w.player.motion.velocity,
        SAFE_VEL,
    ) || !vec_within(w.player.motion.acceleration, SAFE_ACC) {
        return false;
    }
    let n = w.obstacles.len();
    let mut i: usize = 0;
    while i < n
        invariant
            i <= n,
            forall|k: int|
                0 <= k < i ==> {
                    let o = #[trigger] w@.obstacles[k];
                    &&& within_bound(o.position, SAFE_POS as int)
                    &&& within_bound(o.motion.velocity, SAFE_VEL as int)
                    &&& within_bound(o.motion.acceleration, SAFE_ACC as int)
                },
        decreases n - i,
    {
        proof {
            assert(w@.obstacles[i as int] == w.obstacles@[i as int]@);
        }
        let o = &w.obstacles[i];
        if !vec_within(o.position, SAFE_POS) || !vec_within(o.motion.velocity, SAFE_VEL)
            || !vec_within(o.motion.acceleration, SAFE_ACC) {
            return false;
        }
        i = i + 1;
    }
    proof {
        assert(safe_margins(w@, dt as int));
        assert forall|held: bool| #[trigger] tick_fits(w@, dt as int, held) by {
            lemma_margins_allow_tick(w@, dt as int, held);
        }
    }
    true
}

/// One tick of the simulation. While Playing, the phases run in their
/// fixed dependency order; the collision detector only when its throttle
/// has accumulated a full period of elapsed time, which each run resets.
/// Once GameOver, the tick returns at once and mutates nothing.
pub fn tick(w: &mut World, dt: u64, jump_held: bool)
    requires
        old(w).wf(),
        tick_fits(old(w)@, dt as int, jump_held),
    ensures
        tick_rel(old(w)@, final(w)@, dt as int, jump_held),
        final(w).wf(),
        final(w).obstacles@.len() == old(w).obstacles@.len(),
        final(w).score >= old(w).score,
{
    if w.state == GameState::GameOver {
        return ;
    }
    jump(w, jump_held);
    apply_acceleration(w, dt);
    apply_velocity(w, dt);
    rotate(w);
    reuse_pipes(w);
    let ghost w5 = w@;
    w.collision_timer = w.collision_timer + dt;
    proof {
        assert(w@ =~= throttle_m(w5, dt as int));
    }
    if w.collision_timer >= COLLISION_PERIOD {
        let ghost w6 = w@;
        w.collision_timer = 0;
        proof {
            assert(w@ =~= (WorldM { collision_timer: 0, ..w6 }));
        }
        check_for_collisions(w);
    }
    proof {
        assert(w@ == collide_m(w5, dt as int));
        assert(w@ == pre_score_m(old(w)@, dt as int, jump_held));
    }
    check_score(w);
    proof {
        lemma_tick_pool_size(old(w)@, w@, dt as int, jump_held);
    }
}

} // verus!
