//! Startup: the player under gravity at the origin and the pool of
//! obstacle units laid out just right of the visible field with a
//! deterministic horizontal spacing, each unit owning the collider
//! segments of its two pipes. Vertical placements are drawn at random;
//! everything else is exact.
use vstd::prelude::*;

use rand::Rng;

use crate::entities::{
    GameState, Motion, MotionM, Obstacle, ObstacleM, Player, PlayerM, Segment, SegmentM,
};
use crate::geom::{Vec2, Vec2M, in_coord_range};
use crate::world::{World, WorldM};
use crate::{
    BORDER_MARGIN, COORD_LIMIT, GRAVITY, HEIGHT_RANGE, PIPE_ACCELERATION, PIPE_COUNT, PIPE_GAP,
    PIPE_SEGMENT_COUNT, PIPE_SEGMENT_HALF, PIPE_START_OFFSET, PIPE_START_SPEED,
    SEGMENTS_PER_OBSTACLE,
};

verus! {

/// Pixel dimensions of the visual assets, pre-resolved by the asset
/// loader before the simulation starts (in microunits here): they size
/// the player and the collider segments for overlap testing.
#[derive(Clone, Copy)]
pub struct AssetSizes {
    pub player: Vec2,
    pub pipe_start: Vec2,
    pub pipe_segment: Vec2,
}

/// Mathematical view of `AssetSizes`.
#[verifier::ext_equal]
pub struct AssetSizesM {
    pub player: Vec2M,
    pub pipe_start: Vec2M,
    pub pipe_segment: Vec2M,
}

impl View for AssetSizes {
    type V = AssetSizesM;

    open spec fn view(&self) -> AssetSizesM {
        AssetSizesM {
            player: self.player@,
            pipe_start: self.pipe_start@,
            pipe_segment: self.pipe_segment@,
        }
    }
}

/// Well-formed asset sizes: bounded and nonnegative.
pub open spec fn sizes_wf(s: AssetSizesM) -> bool {
    &&& in_coord_range(s.player)
    &&& in_coord_range(s.pipe_start)
    &&& in_coord_range(s.pipe_segment)
    &&& s.player.x >= 0 && s.player.y >= 0
    &&& s.pipe_start.x >= 0 && s.pipe_start.y >= 0
    &&& s.pipe_segment.x >= 0 && s.pipe_segment.y >= 0
}

/// Vertical offset of collider segment `j` within its obstacle: first the
/// lower pipe start and its column of pieces going down, then the upper
/// pipe start and its column going up.
pub open spec fn seg_offset_y(j: int) -> int {
    if j == 0 {
        -PIPE_START_OFFSET as int
    } else if j <= PIPE_SEGMENT_COUNT {
        -PIPE_START_OFFSET - PIPE_SEGMENT_HALF * (2 * j - 1)
    } else if j == PIPE_SEGMENT_COUNT + 1 {
        PIPE_START_OFFSET as int
    } else {
        PIPE_START_OFFSET + PIPE_SEGMENT_HALF * (2 * (j - PIPE_SEGMENT_COUNT - 1) - 1)
    }
}

/// Collider segment `j` of an obstacle: pipe-start geometry for the two
/// starts, pipe-piece geometry for the columns.
pub open spec fn seg_m(j: int, sizes: AssetSizesM) -> SegmentM {
    SegmentM {
        offset: Vec2M { x: 0, y: seg_offset_y(j) },
        size: if j == 0 || j == PIPE_SEGMENT_COUNT + 1 {
            sizes.pipe_start
        } else {
            sizes.pipe_segment
        },
    }
}

/// An obstacle unit at `(x, y)`, moving left at the starting speed and
/// accelerating leftward on the speed ramp, with its full segment set.
pub open spec fn obstacle_at_m(x: int, y: int, sizes: AssetSizesM) -> ObstacleM {
    ObstacleM {
        position: Vec2M { x: x, y: y },
        motion: MotionM {
            velocity: Vec2M { x: -PIPE_START_SPEED as int, y: 0 },
            acceleration: Vec2M { x: PIPE_ACCELERATION as int, y: 0 },
        },
        segments: Seq::new(SEGMENTS_PER_OBSTACLE as nat, |j: int| seg_m(j, sizes)),
    }
}

/// The whole world at startup: the player at rest at the origin under
/// gravity, obstacle `i` at the right border plus `i` gaps, score zero,
/// state Playing, throttle and scoring cache empty.
pub open spec fn initial_world_m(half_width: int, sizes: AssetSizesM, heights: Seq<int>) -> WorldM {
    WorldM {
        half_width: half_width,
        player: PlayerM {
            position: Vec2M { x: 0, y: 0 },
            rotation: 0,
            size: sizes.player,
            motion: MotionM {
                velocity: Vec2M { x: 0, y: 0 },
                acceleration: Vec2M { x: 0, y: GRAVITY as int },
            },
        },
        obstacles: Seq::new(
            PIPE_COUNT as nat,
            |i: int| obstacle_at_m(
                half_width + BORDER_MARGIN + i * PIPE_GAP,
                heights[i],
                sizes,
            ),
        ),
        score: 0,
        state: GameState::Playing,
        collision_timer: 0,
        score_order: Seq::empty(),
        score_cursor: 0,
    }
}

/// Build one obstacle's collider segments.
#[verifier::loop_isolation(false)]
fn build_segments(sizes: &AssetSizes) -> (segs: Vec<Segment>)
    ensures
        segs@.len() == SEGMENTS_PER_OBSTACLE,
        forall|j: int| 0 <= j < SEGMENTS_PER_OBSTACLE ==> (#[trigger] segs@[j])@ == seg_m(
            j,
            sizes@,
        ),
{
    let mut segs: Vec<Segment> = Vec::new();
    segs.push(Segment { offset: Vec2 { x: 0, y: -PIPE_START_OFFSET }, size: sizes.pipe_start });
    let mut k: usize = 0;
    while k < PIPE_SEGMENT_COUNT
        invariant
            k <= PIPE_SEGMENT_COUNT,
            segs@.len() == k + 1,
            forall|j: int| 0 <= j < k + 1 ==> (#[trigger] segs@[j])@ == seg_m(j, sizes@),
        decreases PIPE_SEGMENT_COUNT - k,
    {
        let off = -PIPE_START_OFFSET - PIPE_SEGMENT_HALF * (1 + 2 * (k as i64));
        segs.push(Segment { offset: Vec2 { x: 0, y: off }, size: sizes.pipe_segment });
        k = k + 1;
    }
    segs.push(Segment { offset: Vec2 { x: 0, y: PIPE_START_OFFSET }, size: sizes.pipe_start });
    let mut k: usize = 0;
    while k < PIPE_SEGMENT_COUNT
        invariant
            k <= PIPE_SEGMENT_COUNT,
            segs@.len() == PIPE_SEGMENT_COUNT + 2 + k,
            forall|j: int|
                0 <= j < PIPE_SEGMENT_COUNT + 2 + k ==> (#[trigger] segs@[j])@ == seg_m(
                    j,
                    sizes@,
                ),
        decreases PIPE_SEGMENT_COUNT - k,
    {
        let off = PIPE_START_OFFSET + PIPE_SEGMENT_HALF * (1 + 2 * (k as i64));
        segs.push(Segment { offset: Vec2 { x: 0, y: off }, size: sizes.pipe_segment });
        k = k + 1;
    }
    segs
}

/// Deterministic initial layout from given vertical placements: obstacle
/// `i` stands at the right border plus `i` gaps, at `heights[i]`.
#[verifier::loop_isolation(false)]
pub fn initial_layout(half_width: i64, sizes: AssetSizes, heights: &Vec<i64>) -> (w: World)
    requires
        0 <= half_width,
        half_width + BORDER_MARGIN + (PIPE_COUNT - 1) * PIPE_GAP <= COORD_LIMIT,
        heights@.len() == PIPE_COUNT,
        forall|i: int|
            0 <= i < PIPE_COUNT ==> -COORD_LIMIT <= (#[trigger] heights@[i]) <= COORD_LIMIT,
        sizes_wf(sizes@),
    ensures
        w@ == initial_world_m(
            half_width as int,
            sizes@,
            heights@.map_values(|h: i64| h as int),
        ),
        w.wf(),
{
    let ghost goal = initial_world_m(
        half_width as int,
        sizes@,
        heights@.map_values(|h: i64| h as int),
    );
    let right = half_width + BORDER_MARGIN;
    let mut obstacles: Vec<Obstacle> = Vec::new();
    let mut i: usize = 0;
    while i < PIPE_COUNT
        invariant
            i <= PIPE_COUNT,
            obstacles@.len() == i,
            forall|k: int| 0 <= k < i ==> (#[trigger] obstacles@[k])@ == goal.obstacles[k],
        decreases PIPE_COUNT - i,
    {
        let x = right + (i as i64) * PIPE_GAP;
        let segs = build_segments(&sizes);
        obstacles.push(
            Obstacle {
                position: Vec2 { x, y: heights[i] },
                motion: Motion {
                    velocity: Vec2 { x: -PIPE_START_SPEED, y: 0 },
                    acceleration: Vec2 { x: PIPE_ACCELERATION, y: 0 },
                },
                segments: segs,
            },
        );
        proof {
            assert(goal.obstacles[i as int] == obstacle_at_m(
                half_width + BORDER_MARGIN + i * PIPE_GAP,
                heights@.map_values(|h: i64| h as int)[i as int],
                sizes@,
            ));
            assert(obstacles@[i as int]@.segments =~= goal.obstacles[i as int].segments);
            assert(obstacles@[i as int]@ =~= goal.obstacles[i as int]);
        }
        i = i + 1;
    }
    let w = World {
        half_width,
        player: Player {
            position: Vec2 { x: 0, y: 0 },
            rotation: 0,
            size: sizes.player,
            motion: Motion { velocity: Vec2 { x: 0, y: 0 }, acceleration: Vec2 { x: 0, y: GRAVITY } },
        },
        obstacles,
        score: 0,
        state: GameState::Playing,
        collision_timer: 0,
        score_order: Vec::new(),
        score_cursor: 0,
    };
    proof {
        assert(w@.obstacles =~= goal.obstacles);
        assert(w@.score_order =~= goal.score_order);
        assert(w@ =~= goal);
        assert forall|k: int| 0 <= k < PIPE_COUNT implies crate::entities::obstacle_wf(
            #[trigger] goal.obstacles[k],
        ) by {
            assert(goal.obstacles[k] == obstacle_at_m(
                half_width + BORDER_MARGIN + k * PIPE_GAP,
                heights@.map_values(|h: i64| h as int)[k],
                sizes@,
            ));
        }
    }
    w
}

/// Relies on rand::Rng::gen_range over rand::thread_rng: it returns a
/// value uniformly distributed in `[0, bound)`, and panics only when the
/// range is empty.
#[verifier::external_body]
fn random_below(bound: u64) -> (r: u64)
    requires
        1 <= bound,
    ensures
        r < bound,
{
    rand::thread_rng().gen_range(0..bound)
}

/// Create the world as at process start: the player at rest at the
/// origin, the pool of obstacle units spaced by the gap starting just
/// right of the visible field, each at a small random vertical placement.
pub fn startup(half_width: i64, sizes: AssetSizes) -> (w: World)
    requires
        0 <= half_width,
        half_width + BORDER_MARGIN + (PIPE_COUNT - 1) * PIPE_GAP <= COORD_LIMIT,
        sizes_wf(sizes@),
    ensures
        w.wf(),
        w.state == GameState::Playing,
        w.score == 0,
        w.obstacles@.len() == PIPE_COUNT,
        exists|hs: Seq<int>|
            (forall|k: int| 0 <= k < PIPE_COUNT ==> 0 <= #[trigger] hs[k] < HEIGHT_RANGE)
                && w@ == #[trigger] initial_world_m(half_width as int, sizes@, hs),
{
    let mut heights: Vec<i64> = Vec::new();
    let mut i: usize = 0;
    while i < PIPE_COUNT
        invariant
            i <= PIPE_COUNT,
            heights@.len() == i,
            forall|k: int| 0 <= k < i ==> 0 <= (#[trigger] heights@[k]) < HEIGHT_RANGE,
        decreases PIPE_COUNT - i,
    {
        let h = random_below(HEIGHT_RANGE);
        heights.push(h as i64);
        i = i + 1;
    }
    let w = initial_layout(half_width, sizes, &heights);
    proof {
        let hs = heights@.map_values(|h: i64| h as int);
        assert forall|k: int| 0 <= k < PIPE_COUNT implies 0 <= #[trigger] hs[k]
            < HEIGHT_RANGE by {
            assert(hs[k] == heights@[k] as int);
        }
        assert(w@ == initial_world_m(half_width as int, sizes@, hs));
    }
    w
}

} // verus!
