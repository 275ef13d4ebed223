//! Breadth-first search engine.
//!
//! An explicit first-in-first-out frontier of search nodes, seeded with the
//! initial state, is drained while one shared best bound collects every win.
//! The loop invariant is the branch-and-bound equation: the minimum of the
//! bound and the exact values of all pending nodes stays equal to the exact
//! value of the initial node, so when the frontier empties the bound is that
//! value. The total unpruned tree size of the pending nodes shrinks with every
//! expansion, which proves the search terminates.

use vstd::prelude::*;
use crate::base::Turn;
use crate::base::Boss;
use crate::base::Player;
use crate::base::SearchState;
use crate::model::min_int;
use crate::model::search_min;
use crate::model::seq_best;
use crate::model::seq_size;
use crate::model::wf_state;
use crate::model::init_state;
use crate::model::spec_minimum_cost;
use crate::model::lemma_search_min_bounds;
use crate::model::lemma_seq_best_concat;
use crate::model::lemma_seq_size_concat;
use crate::tick::expand;
use crate::tick::good_child;

verus! {

/// A node an engine may still have to expand.
pub open spec fn wf_node(c: SearchState) -> bool {
    wf_state(c.player, c.boss, c.turn)
}

/// Least total spend that defeats the reference adversary, by breadth-first
/// branch-and-bound. Equals the depth-first engine's result: both return
/// `spec_minimum_cost`.
#[verifier::loop_isolation(false)]
pub fn simulate(hard: bool) -> (r: i32)
    ensures
        r as int == spec_minimum_cost(hard),
{
    let player = Player::new();
    let boss = Boss::new();
    let mut queue: Vec<SearchState> = Vec::new();
    queue.push(SearchState { player, boss, turn: Turn::Player });
    let mut m: i32 = i32::MAX;
    let mut h: usize = 0;
    proof {
        reveal_with_fuel(seq_best, 2);
        lemma_search_min_bounds(init_state().player, init_state().boss, init_state().turn, hard);
        assert(queue@.subrange(0, 1)[0] == queue@[0]);
        assert(queue@.subrange(0, 1).subrange(1, 1) =~= Seq::<SearchState>::empty());
        assert(queue@.subrange(0, 1) =~= queue@);
    }
    while h < queue.len()
        invariant
            h <= queue.len(),
            0 <= m,
            min_int(
                m as int,
                seq_best(queue@.subrange(h as int, queue@.len() as int), hard),
            ) == spec_minimum_cost(hard),
            forall|k: int| h <= k < queue@.len() ==> wf_node(#[trigger] queue@[k]),
        decreases seq_size(queue@.subrange(h as int, queue@.len() as int), hard),
    {
        let st = queue[h];
        let ghost q0 = queue@;
        let ghost pending0 = q0.subrange(h as int, q0.len() as int);
        let ghost rest0 = q0.subrange(h as int + 1, q0.len() as int);
        proof {
            assert(pending0[0] == st);
            assert(pending0.subrange(1, pending0.len() as int) =~= rest0);
        }
        let res = expand(&st, hard, m);
        m = res.0;
        let mut ch = res.1;
        let ghost chs = ch@;
        queue.append(&mut ch);
        h = h + 1;
        proof {
            assert(queue@ == q0 + chs);
            assert(queue@.subrange(h as int, queue@.len() as int) =~= rest0 + chs);
            lemma_seq_best_concat(rest0, chs, hard);
            lemma_seq_size_concat(rest0, chs, hard);
            assert(forall|k: int|
                h <= k < queue@.len() ==> wf_node(#[trigger] queue@[k])) by {
                assert(forall|k: int| 0 <= k < chs.len() ==> good_child(#[trigger] chs[k], st));
                assert(forall|k: int|
                    h <= k < q0.len() ==> #[trigger] queue@[k] == q0[k]);
                assert(forall|k: int|
                    q0.len() <= k < queue@.len() ==> #[trigger] queue@[k] == chs[k - q0.len()]);
            }
        }
    }
    proof {
        assert(queue@.subrange(queue@.len() as int, queue@.len() as int)
            =~= Seq::<SearchState>::empty());
    }
    m
}

} // verus!
