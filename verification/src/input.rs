//! The input mapper (a held jump input overrides the player's vertical
//! velocity) and the orientation deriver (the facing angle follows the
//! vertical velocity, clamped to a quarter turn either way).
use vstd::prelude::*;

use crate::entities::{MotionM, PlayerM};
use crate::geom::{Vec2M, clamp_m};
use crate::motion::lemma_mul_bounds;
use crate::world::{World, WorldM};
use crate::{ANGLE_SLOPE, COORD_LIMIT, HALF_PI_NANORAD, UP_SPEED};

verus! {

/// The world after one input-mapper application: while the jump input is
/// held, the player's vertical velocity is overwritten (not summed) with
/// the fixed upward constant; the horizontal velocity is untouched.
pub open spec fn jump_m(w: WorldM, held: bool) -> WorldM {
    if held {
        WorldM {
            player: PlayerM {
                motion: MotionM {
                    velocity: Vec2M { x: w.player.motion.velocity.x, y: UP_SPEED as int },
                    acceleration: w.player.motion.acceleration,
                },
                ..w.player
            },
            ..w
        }
    } else {
        w
    }
}

/// The facing angle, in nanoradians, derived from a vertical velocity:
/// proportional to it, clamped to [-pi/2, pi/2].
pub open spec fn angle_m(vy: int) -> int {
    clamp_m(vy * ANGLE_SLOPE, -HALF_PI_NANORAD as int, HALF_PI_NANORAD as int)
}

/// The world after the orientation phase: the player's rotation is
/// recomputed from the current vertical velocity alone; it never
/// accumulates.
pub open spec fn rotate_m(w: WorldM) -> WorldM {
    WorldM {
        player: PlayerM { rotation: angle_m(w.player.motion.velocity.y), ..w.player },
        ..w
    }
}

/// Law: the jump override is absolute. After one input-mapper application
/// with the input held, the player's vertical velocity equals the fixed
/// upward constant, whatever it was before (falling included); holding the
/// input across several ticks re-applies the overwrite each tick.
pub proof fn lemma_jump_override(w: WorldM)
    ensures
        jump_m(w, true).player.motion.velocity.y == UP_SPEED,
        jump_m(w, true).player.motion.velocity.x == w.player.motion.velocity.x,
{
}

/// Law: for every vertical velocity, the derived facing angle lies in
/// [-pi/2, pi/2] (in nanoradians), inclusive.
pub proof fn lemma_orientation_bounded(vy: int)
    ensures
        -HALF_PI_NANORAD <= angle_m(vy) <= HALF_PI_NANORAD,
{
}

/// Input mapper: while the designated jump input is held at polling time,
/// override the player's vertical velocity with the fixed upward constant.
pub fn jump(w: &mut World, held: bool)
    requires
        old(w).wf(),
    ensures
        final(w)@ == jump_m(old(w)@, held),
        final(w).wf(),
{
    if held {
        w.player.motion.velocity.y = UP_SPEED;
    }
    proof {
        assert(w@ =~= jump_m(old(w)@, held));
    }
}

/// Orientation deriver: set the player's rotation about the screen-normal
/// axis to the angle derived from the current vertical velocity.
pub fn rotate(w: &mut World)
    requires
        old(w).wf(),
    ensures
        final(w)@ == rotate_m(old(w)@),
        final(w).wf(),
{
    proof {
        lemma_mul_bounds(
            w.player.motion.velocity.y as int,
            ANGLE_SLOPE as int,
            COORD_LIMIT as int,
            ANGLE_SLOPE as int,
        );
    }
    let scaled = w.player.motion.velocity.y * ANGLE_SLOPE;
    w.player.rotation = crate::geom::clamp_i64(scaled, -HALF_PI_NANORAD, HALF_PI_NANORAD);
    proof {
        assert(w@ =~= rotate_m(old(w)@));
    }
}

} // verus!
