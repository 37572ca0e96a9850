//! The collision detector: an axis-aligned bounding-box overlap test
//! between the player and every collider segment, in segment world space.
//! The first overlap ends the run: the state machine moves to GameOver,
//! the single point where the simulation can end.
use vstd::prelude::*;

use crate::entities::GameState;
use crate::geom::{Vec2, Vec2M, aabb_hit, boxes_overlap, in_coord_range};
use crate::world::{World, WorldM};

verus! {

/// World-space position of segment `j` of obstacle `o`: the owning unit's
/// position plus the segment's local offset.
pub open spec fn segment_world_pos(o: crate::entities::ObstacleM, j: int) -> Vec2M {
    Vec2M {
        x: o.position.x + o.segments[j].offset.x,
        y: o.position.y + o.segments[j].offset.y,
    }
}

/// Segment `j` of obstacle `i` overlaps the player's bounding box.
pub open spec fn hit_at(w: WorldM, i: int, j: int) -> bool {
    boxes_overlap(
        w.player.position,
        w.player.size,
        segment_world_pos(w.obstacles[i], j),
        w.obstacles[i].segments[j].size,
    )
}

/// Some collider segment overlaps the player's bounding box.
pub open spec fn any_hit(w: WorldM) -> bool {
    exists|i: int, j: int|
        0 <= i < w.obstacles.len() && 0 <= j < w.obstacles[i].segments.len() && #[trigger] hit_at(
            w,
            i,
            j,
        )
}

/// The world after one (unthrottled) collision check: GameOver exactly
/// when some segment overlaps the player, everything else untouched.
pub open spec fn collide_now_m(w: WorldM) -> WorldM {
    if any_hit(w) {
        WorldM { state: GameState::GameOver, ..w }
    } else {
        w
    }
}

/// Law (collision correctness): from the Playing state, one collision
/// check ends in GameOver if and only if the player's bounding box and
/// some collider segment's bounding box overlap on both axes.
pub proof fn lemma_collision_iff(w: WorldM)
    requires
        w.state == GameState::Playing,
    ensures
        collide_now_m(w).state == GameState::GameOver <==> any_hit(w),
{
}

/// Collision detector phase: test the player against every collider
/// segment in world space; on the first overlap transition the state
/// machine to GameOver and stop.
#[verifier::loop_isolation(false)]
pub fn check_for_collisions(w: &mut World)
    requires
        old(w).wf(),
    ensures
        final(w)@ == collide_now_m(old(w)@),
        final(w).wf(),
{
    let n = w.obstacles.len();
    let mut i: usize = 0;
    while i < n
        invariant
            i <= n,
            w == old(w),
            forall|a: int, b: int|
                0 <= a < i && 0 <= b < w@.obstacles[a].segments.len() ==> !#[trigger] hit_at(
                    w@,
                    a,
                    b,
                ),
        decreases n - i,
    {
        proof {
            assert(w@.obstacles[i as int] == w.obstacles@[i as int]@);
        }
        let m = w.obstacles[i].segments.len();
        let mut j: usize = 0;
        while j < m
            invariant
                j <= m,
                i < n,
                m == w@.obstacles[i as int].segments.len(),
                w == old(w),
                forall|b: int| 0 <= b < j ==> !#[trigger] hit_at(w@, i as int, b),
            decreases m - j,
        {
            proof {
                assert(w@.obstacles[i as int].segments[j as int] == w.obstacles@[
                    i as int
                ]@.segments[j as int]);
            }
            let ob = &w.obstacles[i];
            let seg = ob.segments[j];
            let seg_pos = Vec2 {
                x: ob.position.x + seg.offset.x,
                y: ob.position.y + seg.offset.y,
            };
            if aabb_hit(w.player.position, w.player.size, seg_pos, seg.size) {
                proof {
                    assert(hit_at(w@, i as int, j as int));
                    assert(any_hit(w@));
                }
                w.state = GameState::GameOver;
                proof {
                    assert(w@ =~= collide_now_m(old(w)@));
                }
                return ;
            }
            j = j + 1;
        }
        i = i + 1;
    }
    proof {
        assert(!any_hit(w@));
        assert(w@ =~= collide_now_m(old(w)@));
    }
}

} // verus!
