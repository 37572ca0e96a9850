//! The entities of the simulation: the player-controlled body, the obstacle
//! units with their owned collider segments, and the run lifecycle state.
use vstd::prelude::*;

use crate::HALF_PI_NANORAD;
use crate::geom::{Vec2, Vec2M, in_coord_range};

verus! {

/// Per-entity motion data: a velocity and an acceleration vector.
#[derive(Clone, Copy)]
pub struct Motion {
    pub velocity: Vec2,
    pub acceleration: Vec2,
}

/// Mathematical view of `Motion`.
#[verifier::ext_equal]
pub struct MotionM {
    pub velocity: Vec2M,
    pub acceleration: Vec2M,
}

impl View for Motion {
    type V = MotionM;

    open spec fn view(&self) -> MotionM {
        MotionM { velocity: self.velocity@, acceleration: self.acceleration@ }
    }
}

/// A collider segment: geometry used only for overlap testing. Its position
/// is relative to its owning obstacle unit, so it moves rigidly with it.
#[derive(Clone, Copy)]
pub struct Segment {
    pub offset: Vec2,
    pub size: Vec2,
}

/// Mathematical view of `Segment`.
#[verifier::ext_equal]
pub struct SegmentM {
    pub offset: Vec2M,
    pub size: Vec2M,
}

impl View for Segment {
    type V = SegmentM;

    open spec fn view(&self) -> SegmentM {
        SegmentM { offset: self.offset@, size: self.size@ }
    }
}

/// One obstacle unit (a pipe pair) at a horizontal position, owning the
/// collider segments that make up its two pipes.
pub struct Obstacle {
    pub position: Vec2,
    pub motion: Motion,
    pub segments: Vec<Segment>,
}

/// Mathematical view of `Obstacle`.
#[verifier::ext_equal]
pub struct ObstacleM {
    pub position: Vec2M,
    pub motion: MotionM,
    pub segments: Seq<SegmentM>,
}

impl View for Obstacle {
    type V = ObstacleM;

    open spec fn view(&self) -> ObstacleM {
        ObstacleM {
            position: self.position@,
            motion: self.motion@,
            segments: self.segments@.map_values(|s: Segment| s@),
        }
    }
}

/// The player-controlled body: position, facing angle (nanoradians about
/// the screen-normal axis), bounding size, and motion data.
pub struct Player {
    pub position: Vec2,
    pub rotation: i64,
    pub size: Vec2,
    pub motion: Motion,
}

/// Mathematical view of `Player`.
#[verifier::ext_equal]
pub struct PlayerM {
    pub position: Vec2M,
    pub rotation: int,
    pub size: Vec2M,
    pub motion: MotionM,
}

impl View for Player {
    type V = PlayerM;

    open spec fn view(&self) -> PlayerM {
        PlayerM {
            position: self.position@,
            rotation: self.rotation as int,
            size: self.size@,
            motion: self.motion@,
        }
    }
}

/// The two-state lifecycle of a run. `GameOver` is terminal: no transition
/// leads back to `Playing` within a run.
#[derive(Clone, Copy, PartialEq, Eq, Structural, Debug)]
pub enum GameState {
    Playing,
    GameOver,
}

/// Velocity and acceleration both within the global magnitude bound.
pub open spec fn motion_in_range(m: MotionM) -> bool {
    &&& in_coord_range(m.velocity)
    &&& in_coord_range(m.acceleration)
}

/// A well-formed collider segment: bounded offset, bounded nonnegative size.
pub open spec fn segment_wf(s: SegmentM) -> bool {
    &&& in_coord_range(s.offset)
    &&& in_coord_range(s.size)
    &&& s.size.x >= 0
    &&& s.size.y >= 0
}

/// A well-formed obstacle unit: bounded position and motion, well-formed
/// segments.
pub open spec fn obstacle_wf(o: ObstacleM) -> bool {
    &&& in_coord_range(o.position)
    &&& motion_in_range(o.motion)
    &&& forall|j: int| 0 <= j < o.segments.len() ==> segment_wf(#[trigger] o.segments[j])
}

/// A well-formed player: bounded position, motion and size, nonnegative
/// size, and a facing angle already inside its clamp interval.
pub open spec fn player_wf(p: PlayerM) -> bool {
    &&& in_coord_range(p.position)
    &&& motion_in_range(p.motion)
    &&& in_coord_range(p.size)
    &&& p.size.x >= 0
    &&& p.size.y >= 0
    &&& -HALF_PI_NANORAD <= p.rotation <= HALF_PI_NANORAD
}

} // verus!
