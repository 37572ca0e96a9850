//! The scoring tracker: a lazily cached ordering of the pool (ascending by
//! horizontal position at the time it is built) and a cyclic cursor. Each
//! tick the obstacle at the cursor is inspected; once its horizontal
//! position crosses below zero — the player's fixed horizontal position —
//! the score grows by exactly one and the cursor advances.
use vstd::prelude::*;

use crate::entities::{Obstacle, ObstacleM};
use crate::world::{World, WorldM, order_domain_ok};
use crate::PIPE_COUNT;

verus! {

/// `ord` is the pool's indices sorted ascending by the obstacles' current
/// horizontal positions (obstacles at equal positions in either order).
pub open spec fn is_order_of(obs: Seq<ObstacleM>, ord: Seq<int>) -> bool {
    &&& order_domain_ok(ord, obs.len() as int)
    &&& forall|k1: int, k2: int|
        0 <= k1 < k2 < ord.len() ==> obs[#[trigger] ord[k1]].position.x <= obs[
            #[trigger] ord[k2]
        ].position.x
}

/// One scoring step on a world whose order is already cached: inspect the
/// obstacle at the cursor; if it is resolvable and its horizontal position
/// has crossed below zero, raise the score by one and advance the cursor
/// cyclically modulo the pool size; otherwise change nothing.
pub open spec fn score_step_m(w: WorldM) -> WorldM {
    if 0 <= w.score_cursor < w.score_order.len() {
        let idx = w.score_order[w.score_cursor];
        if 0 <= idx < w.obstacles.len() && w.obstacles[idx].position.x < 0 {
            WorldM {
                score: w.score + 1,
                score_cursor: (w.score_cursor + 1) % (PIPE_COUNT as int),
                ..w
            }
        } else {
            w
        }
    } else {
        w
    }
}

/// How the scoring phase relates the worlds before and after it: on its
/// lazy first run (empty cache) the tracker caches some sorted order of
/// the pool and resets the cursor, and then a scoring step runs; on every
/// later run only the scoring step runs.
pub open spec fn score_rel(w: WorldM, w2: WorldM) -> bool {
    if w.score_order.len() == 0 {
        exists|ord: Seq<int>|
            #[trigger] is_order_of(w.obstacles, ord) && w2 == score_step_m(
                WorldM { score_order: ord, score_cursor: 0, ..w },
            )
    } else {
        w2 == score_step_m(w)
    }
}

/// Law (score monotonicity, single step): a scoring step never decreases
/// the score, and raises it by exactly one exactly when the tracked
/// obstacle's current horizontal position is below zero.
pub proof fn lemma_score_step_exact(w: WorldM)
    ensures
        score_step_m(w).score >= w.score,
        score_step_m(w).score <= w.score + 1,
        (0 <= w.score_cursor < w.score_order.len() && 0 <= w.score_order[w.score_cursor]
            < w.obstacles.len()) ==> score_step_m(w).score == w.score + (
        if w.obstacles[w.score_order[w.score_cursor]].position.x < 0 {
            1int
        } else {
            0int
        }),
{
}

/// Law (score monotonicity, whole phase): across one scoring phase the
/// score never decreases and grows by at most one.
pub proof fn lemma_score_rel_monotone(w: WorldM, w2: WorldM)
    requires
        score_rel(w, w2),
    ensures
        w.score <= w2.score <= w.score + 1,
{
    if w.score_order.len() == 0 {
        let ord = choose|ord: Seq<int>|
            #[trigger] is_order_of(w.obstacles, ord) && w2 == score_step_m(
                WorldM { score_order: ord, score_cursor: 0, ..w },
            );
        lemma_score_step_exact(WorldM { score_order: ord, score_cursor: 0, ..w });
    } else {
        lemma_score_step_exact(w);
    }
}

/// Law (scoring frame): the scoring phase touches only the score, the
/// cursor and the cached order; the entities, the lifecycle state and the
/// timers are exactly what they were.
pub proof fn lemma_score_rel_frame(w: WorldM, w2: WorldM)
    requires
        score_rel(w, w2),
    ensures
        w2.obstacles == w.obstacles,
        w2.player == w.player,
        w2.state == w.state,
        w2.collision_timer == w.collision_timer,
        w2.half_width == w.half_width,
{
    if w.score_order.len() == 0 {
        let ord = choose|ord: Seq<int>|
            #[trigger] is_order_of(w.obstacles, ord) && w2 == score_step_m(
                WorldM { score_order: ord, score_cursor: 0, ..w },
            );
    }
}

/// Build the scoring order: the pool's indices sorted ascending by the
/// obstacles' current horizontal positions, by insertion.
#[verifier::loop_isolation(false)]
fn sorted_order(obs: &Vec<Obstacle>) -> (ord: Vec<usize>)
    ensures
        is_order_of(
            obs@.map_values(|o: Obstacle| o@),
            ord@.map_values(|k: usize| k as int),
        ),
        ord@.len() == obs@.len(),
        forall|k: int| 0 <= k < ord@.len() ==> (#[trigger] ord@[k]) < obs@.len(),
{
    let ghost obsm = obs@.map_values(|o: Obstacle| o@);
    let n = obs.len();
    let mut ord: Vec<usize> = Vec::new();
    let mut jj: usize = 0;
    while jj < n
        invariant
            jj <= n,
            ord@.len() == jj,
            forall|k: int| 0 <= k < jj ==> (#[trigger] ord@[k]) < jj,
            forall|k1: int, k2: int| 0 <= k1 < k2 < jj ==> ord@[k1] != ord@[k2],
            forall|k1: int, k2: int|
                0 <= k1 < k2 < jj ==> obsm[#[trigger] ord@[k1] as int].position.x <= obsm[
                    #[trigger] ord@[k2] as int
                ].position.x,
        decreases n - jj,
    {
        proof {
            assert(obsm[jj as int] == obs@[jj as int]@);
        }
        let xj = obs[jj].position.x;
        let mut p: usize = 0;
        while p < jj && obs[ord[p]].position.x <= xj
            invariant
                p <= jj,
                forall|k: int|
                    0 <= k < p ==> obsm[#[trigger] ord@[k] as int].position.x <= xj as int,
            decreases jj - p,
        {
            proof {
                assert(obsm[ord@[p as int] as int] == obs@[ord@[p as int] as int]@);
            }
            p = p + 1;
        }
        let ghost old_ord = ord@;
        proof {
            if p < jj {
                assert(obsm[old_ord[p as int] as int] == obs@[old_ord[p as int] as int]@);
                assert(obsm[old_ord[p as int] as int].position.x > xj as int);
            }
            old_ord.insert_ensures(p as int, jj);
        }
        ord.insert(p, jj);
        proof {
            assert forall|k: int| 0 <= k < jj + 1 implies (#[trigger] ord@[k]) < jj + 1 by {
                if k < p as int {
                    assert(ord@[k] == old_ord[k]);
                } else if k > p as int {
                    assert(ord@[k] == old_ord[k - 1]);
                }
            }
            assert forall|k1: int, k2: int| 0 <= k1 < k2 < jj + 1 implies ord@[k1] != ord@[
                k2
            ] by {
                if k1 < p as int {
                    assert(ord@[k1] == old_ord[k1]);
                } else if k1 > p as int {
                    assert(ord@[k1] == old_ord[k1 - 1]);
                }
                if k2 < p as int {
                    assert(ord@[k2] == old_ord[k2]);
                } else if k2 > p as int {
                    assert(ord@[k2] == old_ord[k2 - 1]);
                }
            }
            assert forall|k1: int, k2: int| 0 <= k1 < k2 < jj + 1 implies obsm[
                #[trigger] ord@[k1] as int
            ].position.x <= obsm[#[trigger] ord@[k2] as int].position.x by {
                if k1 < p as int {
                    assert(ord@[k1] == old_ord[k1]);
                    assert(obsm[old_ord[k1] as int].position.x <= xj as int);
                } else if k1 > p as int {
                    assert(ord@[k1] == old_ord[k1 - 1]);
                }
                if k2 < p as int {
                    assert(ord@[k2] == old_ord[k2]);
                } else if k2 > p as int {
                    assert(ord@[k2] == old_ord[k2 - 1]);
                }
                if k2 > p as int && k2 - 1 > p as int {
                    assert(obsm[old_ord[p as int] as int].position.x <= obsm[old_ord[k2
                        - 1] as int].position.x);
                }
            }
        }
        jj = jj + 1;
    }
    proof {
        let ordm = ord@.map_values(|k: usize| k as int);
        assert forall|k: int| 0 <= k < ordm.len() implies 0 <= #[trigger] ordm[k] < n as int by {
            assert(ordm[k] == ord@[k] as int);
        }
        assert forall|k1: int, k2: int| 0 <= k1 < k2 < ordm.len() implies ordm[k1] != ordm[k2] by {
            assert(ordm[k1] == ord@[k1] as int);
            assert(ordm[k2] == ord@[k2] as int);
        }
        assert forall|k1: int, k2: int|
            0 <= k1 < k2 < ordm.len() implies obsm[#[trigger] ordm[k1]].position.x <= obsm[
            #[trigger] ordm[k2]
        ].position.x by {
            assert(ordm[k1] == ord@[k1] as int);
            assert(ordm[k2] == ord@[k2] as int);
        }
    }
    ord
}

/// Scoring tracker phase. On its first run it caches the pool's indices
/// sorted ascending by current horizontal position and points the cursor
/// at the first of them. Then, if the obstacle the cursor tracks is
/// resolvable and has crossed below zero, the score grows by exactly one
/// and the cursor advances cyclically; if the cursor's reference were ever
/// unresolvable the phase would skip scoring rather than fail.
#[verifier::loop_isolation(false)]
pub fn check_score(w: &mut World)
    requires
        old(w).wf(),
        old(w).score < u64::MAX,
    ensures
        score_rel(old(w)@, final(w)@),
        final(w).wf(),
        final(w).score >= old(w).score,
{
    let ghost pre_build = old(w)@;
    if w.score_order.len() == 0 {
        let ord = sorted_order(&w.obstacles);
        w.score_order = ord;
        w.score_cursor = 0;
    }
    let ghost built = w@;
    proof {
        assert(built.score_order.len() == PIPE_COUNT);
    }
    let idx = w.score_order[w.score_cursor];
    if idx < w.obstacles.len() {
        proof {
            assert(w@.obstacles[idx as int] == w.obstacles@[idx as int]@);
        }
        if w.obstacles[idx].position.x < 0 {
            w.score = w.score + 1;
            w.score_cursor = (w.score_cursor + 1) % PIPE_COUNT;
        }
    }
    proof {
        assert(w@ =~= score_step_m(built));
        if pre_build.score_order.len() == 0 {
            assert(is_order_of(pre_build.obstacles, built.score_order));
            assert(built =~= (WorldM {
                score_order: built.score_order,
                score_cursor: 0,
                ..pre_build
            }));
        }
        lemma_score_step_exact(built);
    }
}

} // verus!
