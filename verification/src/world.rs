//! The simulation context: every entity, the score, the lifecycle state and
//! the per-phase bookkeeping, with its well-formedness invariant.
use vstd::prelude::*;

use crate::entities::{GameState, Obstacle, ObstacleM, Player, PlayerM, obstacle_wf, player_wf};
use crate::{BORDER_MARGIN, COLLISION_PERIOD, COORD_LIMIT, PIPE_COUNT};

verus! {

/// The whole simulation state, owned by the scheduler and handed to each
/// phase in turn.
pub struct World {
    /// Half the visible field width, microunits.
    pub half_width: i64,
    pub player: Player,
    pub obstacles: Vec<Obstacle>,
    /// The global score counter.
    pub score: u64,
    pub state: GameState,
    /// Elapsed time accumulated by the collision detector's throttle,
    /// milliseconds; each detector run resets it, so between ticks it is
    /// always below the threshold.
    pub collision_timer: u64,
    /// The scoring tracker's cached obstacle ordering (indices into
    /// `obstacles`), empty until its lazy first computation.
    pub score_order: Vec<usize>,
    /// The scoring tracker's cyclic cursor into `score_order`.
    pub score_cursor: usize,
}

/// Mathematical view of `World`.
#[verifier::ext_equal]
pub struct WorldM {
    pub half_width: int,
    pub player: PlayerM,
    pub obstacles: Seq<ObstacleM>,
    pub score: int,
    pub state: GameState,
    pub collision_timer: int,
    pub score_order: Seq<int>,
    pub score_cursor: int,
}

impl View for World {
    type V = WorldM;

    open spec fn view(&self) -> WorldM {
        WorldM {
            half_width: self.half_width as int,
            player: self.player@,
            obstacles: self.obstacles@.map_values(|o: Obstacle| o@),
            score: self.score as int,
            state: self.state,
            collision_timer: self.collision_timer as int,
            score_order: self.score_order@.map_values(|k: usize| k as int),
            score_cursor: self.score_cursor as int,
        }
    }
}

/// The horizontal position below which an obstacle has left the visible
/// field: half the visible width plus a fixed margin, to the left.
pub open spec fn left_boundary(w: WorldM) -> int {
    -w.half_width - BORDER_MARGIN
}

/// The horizontal position just right of the visible field where the
/// obstacle sequence starts at startup.
pub open spec fn right_border(w: WorldM) -> int {
    w.half_width + BORDER_MARGIN
}

/// `ord` is a sequence of `n` distinct indices into a pool of `n`.
pub open spec fn order_domain_ok(ord: Seq<int>, n: int) -> bool {
    &&& ord.len() == n
    &&& forall|k: int| 0 <= k < ord.len() ==> 0 <= #[trigger] ord[k] < n
    &&& forall|k1: int, k2: int| 0 <= k1 < k2 < ord.len() ==> ord[k1] != ord[k2]
}

/// Well-formedness of the whole simulation state.
pub open spec fn world_wf(w: WorldM) -> bool {
    &&& w.obstacles.len() == PIPE_COUNT
    &&& player_wf(w.player)
    &&& forall|i: int| 0 <= i < w.obstacles.len() ==> obstacle_wf(#[trigger] w.obstacles[i])
    &&& 0 <= w.half_width <= COORD_LIMIT
    &&& 0 <= w.score <= u64::MAX
    &&& 0 <= w.collision_timer < COLLISION_PERIOD
    &&& 0 <= w.score_cursor < PIPE_COUNT
    &&& w.score_order.len() == 0 || order_domain_ok(w.score_order, w.obstacles.len() as int)
}

impl World {
    /// Well-formedness, stated over the view.
    pub open spec fn wf(&self) -> bool {
        world_wf(self@)
    }
}

} // verus!
