//! The obstacle recycler: each tick, every obstacle that has left the
//! visible field on the left is repositioned to the frontmost position plus
//! the gap, and immediately becomes the new frontmost, so that several
//! simultaneous recycles chain without landing on the same spot. No unit
//! is ever created or destroyed: recycling only repositions, which yields
//! an unbounded obstacle field from a fixed-size pool.
use vstd::prelude::*;

use crate::entities::{ObstacleM, obstacle_wf};
use crate::geom::{Vec2, Vec2M, in_coord_range};
use crate::world::{World, WorldM, left_boundary};
use crate::{BORDER_MARGIN, COORD_LIMIT, PIPE_GAP};

verus! {

/// Largest horizontal position among the first `n` obstacles (the last one
/// wins ties, which does not matter for the value).
pub open spec fn max_x_up_to(obs: Seq<ObstacleM>, n: nat) -> int
    decreases n,
{
    if n <= 1 {
        obs[0].position.x
    } else {
        let rest = max_x_up_to(obs, (n - 1) as nat);
        if obs[n - 1].position.x > rest {
            obs[n - 1].position.x
        } else {
            rest
        }
    }
}

/// The frontmost horizontal position of a pool.
pub open spec fn max_x(obs: Seq<ObstacleM>) -> int {
    max_x_up_to(obs, obs.len())
}

/// One recycler pass from index `i` on, with `front` the frontmost
/// horizontal position seen so far: an obstacle below the left boundary
/// moves to `front + PIPE_GAP` (its vertical position preserved) and that
/// becomes the new frontmost for the rest of the pass.
pub open spec fn recycle_from(obs: Seq<ObstacleM>, i: nat, front: int, left: int) -> Seq<ObstacleM>
    decreases obs.len() - i,
{
    if i >= obs.len() {
        obs
    } else if obs[i as int].position.x < left {
        let moved = ObstacleM {
            position: Vec2M { x: front + PIPE_GAP, y: obs[i as int].position.y },
            ..obs[i as int]
        };
        recycle_from(obs.update(i as int, moved), i + 1, front + PIPE_GAP, left)
    } else {
        recycle_from(obs, i + 1, front, left)
    }
}

/// The world after the recycler phase.
pub open spec fn recycle_m(w: WorldM) -> WorldM {
    WorldM {
        obstacles: recycle_from(w.obstacles, 0, max_x(w.obstacles), left_boundary(w)),
        ..w
    }
}

/// Every position the recycler pass produces stays within the global
/// magnitude bound (the machine limit of the representation).
pub open spec fn recycle_fits(w: WorldM) -> bool {
    forall|i: int|
        0 <= i < w.obstacles.len() ==> in_coord_range(
            #[trigger] recycle_m(w).obstacles[i].position,
        )
}

/// A recycler pass never changes the size of the pool.
pub proof fn lemma_recycle_len(obs: Seq<ObstacleM>, i: nat, front: int, left: int)
    ensures
        recycle_from(obs, i, front, left).len() == obs.len(),
    decreases obs.len() - i,
{
    if i < obs.len() {
        if obs[i as int].position.x < left {
            let moved = ObstacleM {
                position: Vec2M { x: front + PIPE_GAP, y: obs[i as int].position.y },
                ..obs[i as int]
            };
            lemma_recycle_len(obs.update(i as int, moved), i + 1, front + PIPE_GAP, left);
        } else {
            lemma_recycle_len(obs, i + 1, front, left);
        }
    }
}

/// A recycler pass starting at `i` leaves every obstacle before `i` alone.
pub proof fn lemma_recycle_prefix(obs: Seq<ObstacleM>, i: nat, front: int, left: int, j: int)
    requires
        0 <= j < i,
        i <= obs.len(),
    ensures
        recycle_from(obs, i, front, left)[j] == obs[j],
    decreases obs.len() - i,
{
    if i < obs.len() {
        if obs[i as int].position.x < left {
            let moved = ObstacleM {
                position: Vec2M { x: front + PIPE_GAP, y: obs[i as int].position.y },
                ..obs[i as int]
            };
            lemma_recycle_prefix(obs.update(i as int, moved), i + 1, front + PIPE_GAP, left, j);
        } else {
            lemma_recycle_prefix(obs, i + 1, front, left, j);
        }
    }
}

/// The frontmost position as of obstacle `j`'s turn, for a pass that
/// starts at index `i` with frontmost `front`: it grows by the gap at
/// every recycled obstacle in between.
pub open spec fn front_before(obs: Seq<ObstacleM>, i: nat, j: int, front: int, left: int) -> int
    decreases j - i,
{
    if i as int >= j {
        front
    } else {
        front_before(
            obs,
            i + 1,
            j,
            if obs[i as int].position.x < left {
                front + PIPE_GAP
            } else {
                front
            },
            left,
        )
    }
}

/// Law (recycle placement): in one recycler pass, an obstacle below the
/// left boundary is repositioned exactly to the frontmost position as of
/// its turn plus the gap, keeping its vertical position, motion and
/// segments; every other obstacle is untouched. That the repositioned
/// obstacle is the new frontmost for the obstacles after it is what
/// `front_before` states: it grows by the gap at each recycled obstacle.
pub proof fn lemma_recycle_placement(obs: Seq<ObstacleM>, i: nat, front: int, left: int, j: int)
    requires
        i <= j < obs.len(),
    ensures
        obs[j].position.x < left ==> recycle_from(obs, i, front, left)[j] == (ObstacleM {
            position: Vec2M {
                x: front_before(obs, i, j, front, left) + PIPE_GAP,
                y: obs[j].position.y,
            },
            ..obs[j]
        }),
        obs[j].position.x >= left ==> recycle_from(obs, i, front, left)[j] == obs[j],
    decreases j - i,
{
    if i as int == j {
        if obs[j].position.x < left {
            let moved = ObstacleM {
                position: Vec2M { x: front + PIPE_GAP, y: obs[j].position.y },
                ..obs[j]
            };
            lemma_recycle_prefix(obs.update(j, moved), i + 1, front + PIPE_GAP, left, j);
        } else {
            lemma_recycle_prefix(obs, i + 1, front, left, j);
        }
    } else {
        if obs[i as int].position.x < left {
            let moved = ObstacleM {
                position: Vec2M { x: front + PIPE_GAP, y: obs[i as int].position.y },
                ..obs[i as int]
            };
            let obs2 = obs.update(i as int, moved);
            lemma_recycle_placement(obs2, i + 1, front + PIPE_GAP, left, j);
            lemma_front_before_same(obs2, obs, i + 1, j, front + PIPE_GAP, left);
        } else {
            lemma_recycle_placement(obs, i + 1, front, left, j);
        }
    }
}

/// `front_before` only reads the entries in `[i, j)`, so two pools equal
/// there walk the front identically.
pub proof fn lemma_front_before_same(
    a: Seq<ObstacleM>,
    b: Seq<ObstacleM>,
    i: nat,
    j: int,
    front: int,
    left: int,
)
    requires
        forall|k: int| i <= k < j ==> a[k] == b[k],
    ensures
        front_before(a, i, j, front, left) == front_before(b, i, j, front, left),
    decreases j - i,
{
    if (i as int) < j {
        let next = if a[i as int].position.x < left {
            front + PIPE_GAP
        } else {
            front
        };
        lemma_front_before_same(a, b, i + 1, j, next, left);
    }
}

/// The front never moves backward during a pass.
pub proof fn lemma_front_before_grows(obs: Seq<ObstacleM>, i: nat, j: int, front: int, left: int)
    ensures
        front_before(obs, i, j, front, left) >= front,
    decreases j - i,
{
    if (i as int) < j {
        if obs[i as int].position.x < left {
            lemma_front_before_grows(obs, i + 1, j, front + PIPE_GAP, left);
        } else {
            lemma_front_before_grows(obs, i + 1, j, front, left);
        }
    }
}

/// Splitting a front walk at an intermediate index composes.
pub proof fn lemma_front_before_split(
    obs: Seq<ObstacleM>,
    i: nat,
    j: int,
    k: int,
    front: int,
    left: int,
)
    requires
        i <= j <= k,
    ensures
        front_before(obs, i, k, front, left) == front_before(
            obs,
            j as nat,
            k,
            front_before(obs, i, j, front, left),
            left,
        ),
    decreases j - i,
{
    if (i as int) < j {
        let next = if obs[i as int].position.x < left {
            front + PIPE_GAP
        } else {
            front
        };
        lemma_front_before_split(obs, i + 1, j, k, next, left);
    }
}

/// With every horizontal position within `[-b, b]`, so is the frontmost.
pub proof fn lemma_max_x_range(obs: Seq<ObstacleM>, n: nat, b: int)
    requires
        1 <= n <= obs.len(),
        forall|i: int| 0 <= i < n ==> -b <= #[trigger] obs[i].position.x <= b,
    ensures
        -b <= max_x_up_to(obs, n) <= b,
    decreases n,
{
    if n > 1 {
        lemma_max_x_range(obs, (n - 1) as nat, b);
    }
}

/// The front grows by at most one gap per obstacle walked over.
pub proof fn lemma_front_before_bound(obs: Seq<ObstacleM>, i: nat, j: int, front: int, left: int)
    requires
        i <= j,
    ensures
        front_before(obs, i, j, front, left) <= front + (j - i) * PIPE_GAP,
    decreases j - i,
{
    if (i as int) < j {
        if obs[i as int].position.x < left {
            lemma_front_before_bound(obs, i + 1, j, front + PIPE_GAP, left);
        } else {
            lemma_front_before_bound(obs, i + 1, j, front, left);
        }
    }
}

/// Law (recycles chain): two obstacles recycled in the same pass land at
/// strictly increasing horizontal positions — never on the same spot.
pub proof fn lemma_recycle_distinct(
    obs: Seq<ObstacleM>,
    front: int,
    left: int,
    j1: int,
    j2: int,
)
    requires
        0 <= j1 < j2 < obs.len(),
        obs[j1].position.x < left,
        obs[j2].position.x < left,
    ensures
        recycle_from(obs, 0, front, left)[j1].position.x < recycle_from(
            obs,
            0,
            front,
            left,
        )[j2].position.x,
{
    lemma_recycle_placement(obs, 0, front, left, j1);
    lemma_recycle_placement(obs, 0, front, left, j2);
    let f1 = front_before(obs, 0, j1, front, left);
    lemma_front_before_split(obs, 0, j1, j2, front, left);
    assert(front_before(obs, 0, j2, front, left) == front_before(obs, j1 as nat, j2, f1, left));
    assert(front_before(obs, j1 as nat, j2, f1, left) == front_before(
        obs,
        (j1 + 1) as nat,
        j2,
        f1 + PIPE_GAP,
        left,
    ));
    lemma_front_before_grows(obs, (j1 + 1) as nat, j2, f1 + PIPE_GAP, left);
}

/// Obstacle recycler phase: compute the frontmost obstacle, then move
/// every obstacle that has fallen below the left visibility boundary to
/// the current frontmost position plus the gap, chaining the frontmost
/// through the pass.
#[verifier::loop_isolation(false)]
pub fn reuse_pipes(w: &mut World)
    requires
        old(w).wf(),
        recycle_fits(old(w)@),
    ensures
        final(w)@ == recycle_m(old(w)@),
        final(w).wf(),
{
    let ghost goal = recycle_m(old(w)@);
    let left = -w.half_width - BORDER_MARGIN;
    let n = w.obstacles.len();
    let mut front = w.obstacles[0].position.x;
    let mut i: usize = 1;
    while i < n
        invariant
            1 <= i <= n,
            front == max_x_up_to(old(w)@.obstacles, i as nat),
            -COORD_LIMIT <= front <= COORD_LIMIT,
        decreases n - i,
    {
        proof {
            assert(w@.obstacles[i as int] == w.obstacles@[i as int]@);
        }
        let x = w.obstacles[i].position.x;
        if x > front {
            front = x;
        }
        i = i + 1;
    }
    proof {
        assert(front == max_x(old(w)@.obstacles));
        lemma_recycle_len(old(w)@.obstacles, 0, front as int, left as int);
    }
    let mut i: usize = 0;
    while i < n
        invariant
            i <= n,
            w.obstacles.len() == n,
            w.half_width == old(w).half_width,
            w.player == old(w).player,
            w.score == old(w).score,
            w.state == old(w).state,
            w.collision_timer == old(w).collision_timer,
            w.score_order == old(w).score_order,
            w.score_cursor == old(w).score_cursor,
            -COORD_LIMIT <= front <= COORD_LIMIT,
            recycle_from(w@.obstacles, i as nat, front as int, left as int) == goal.obstacles,
            forall|k: int| i <= k < n ==> (#[trigger] w.obstacles@[k])@ == old(w)@.obstacles[k],
        decreases n - i,
    {
        let ghost cur = w@.obstacles;
        proof {
            assert(w@.obstacles[i as int] == w.obstacles@[i as int]@);
        }
        let x = w.obstacles[i].position.x;
        if x < left {
            let ghost moved = ObstacleM {
                position: Vec2M { x: front + PIPE_GAP, y: cur[i as int].position.y },
                ..cur[i as int]
            };
            proof {
                assert(recycle_from(cur, i as nat, front as int, left as int) == recycle_from(
                    cur.update(i as int, moved),
                    (i + 1) as nat,
                    front + PIPE_GAP,
                    left as int,
                ));
                lemma_recycle_prefix(
                    cur.update(i as int, moved),
                    (i + 1) as nat,
                    front + PIPE_GAP,
                    left as int,
                    i as int,
                );
                assert(goal.obstacles[i as int] == moved);
                assert(in_coord_range(recycle_m(old(w)@).obstacles[i as int].position));
            }
            let py = w.obstacles[i].position.y;
            let nx = front + PIPE_GAP;
            let o = &mut w.obstacles[i];
            o.position = Vec2 { x: nx, y: py };
            front = nx;
            proof {
                assert(w.obstacles@[i as int]@ =~= moved);
                assert(w@.obstacles =~= cur.update(i as int, moved));
            }
        } else {
            proof {
                assert(recycle_from(cur, i as nat, front as int, left as int) == recycle_from(
                    cur,
                    (i + 1) as nat,
                    front as int,
                    left as int,
                ));
            }
        }
        i = i + 1;
    }
    proof {
        assert(w@.obstacles == goal.obstacles);
        assert(w@ =~= goal);
        assert forall|k: int| 0 <= k < goal.obstacles.len() implies obstacle_wf(
            #[trigger] goal.obstacles[k],
        ) by {
            assert(obstacle_wf(old(w)@.obstacles[k]));
            lemma_recycle_placement(
                old(w)@.obstacles,
                0,
                max_x(old(w)@.obstacles),
                left_boundary(old(w)@),
                k,
            );
            assert(in_coord_range(recycle_m(old(w)@).obstacles[k].position));
        }
    }
}

} // verus!
