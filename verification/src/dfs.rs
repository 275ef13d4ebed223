//! Depth-first search engine.
//!
//! A recursive function carries the best bound into each subtree and returns
//! the bound updated by every win found there. It returns exactly
//! `min(bound, search_min(node))`, the same value the breadth-first engine
//! reaches: traversal order changes which branches are pruned early, never the
//! answer.

use vstd::prelude::*;
use crate::base::Turn;
use crate::base::Boss;
use crate::base::Player;
use crate::base::SearchState;
use crate::model::inf;
use crate::model::min_int;
use crate::model::turn_rank;
use crate::model::search_min;
use crate::model::seq_best;
use crate::model::wf_state;
use crate::model::init_state;
use crate::model::spec_minimum_cost;
use crate::model::lemma_search_min_bounds;
use crate::tick::expand;
use crate::tick::good_child;

verus! {

/// Fully explore the subtree rooted at `(player, boss, turn)` under the best
/// bound `spent_min` and return the updated bound: the minimum of the bound
/// and the node's exact value. The result never exceeds the bound it was
/// given — the bound only ever decreases.
#[verifier::loop_isolation(false)]
pub fn _simulate(player: Player, boss: Boss, turn: Turn, spent_min: i32, hard: bool) -> (r: i32)
    requires
        wf_state(player, boss, turn),
        0 <= spent_min,
    ensures
        r as int == min_int(spent_min as int, search_min(player, boss, turn, hard)),
        0 <= r <= spent_min,
    decreases inf() - player.spent, turn_rank(turn),
{
    let s = SearchState { player, boss, turn };
    let res = expand(&s, hard, spent_min);
    let mut m = res.0;
    let ch = res.1;
    proof {
        assert(ch@.subrange(0, ch@.len() as int) =~= ch@);
    }
    let mut j: usize = 0;
    while j < ch.len()
        invariant
            j <= ch.len(),
            0 <= m <= spent_min,
            min_int(m as int, seq_best(ch@.subrange(j as int, ch@.len() as int), hard)) == min_int(
                spent_min as int,
                search_min(player, boss, turn, hard),
            ),
        decreases ch.len() - j,
    {
        let c = ch[j];
        proof {
            assert(good_child(ch@[j as int], s));
            assert(ch@.subrange(j as int, ch@.len() as int)[0] == ch@[j as int]);
            assert(ch@.subrange(j as int, ch@.len() as int).subrange(
                1,
                ch@.len() - j as int,
            ) =~= ch@.subrange(j as int + 1, ch@.len() as int));
        }
        m = _simulate(c.player, c.boss, c.turn, m, hard);
        j = j + 1;
    }
    proof {
        assert(ch@.subrange(ch@.len() as int, ch@.len() as int)
            =~= Seq::<SearchState>::empty());
    }
    m
}

/// Least total spend that defeats the reference adversary, by depth-first
/// branch-and-bound. Equals the breadth-first engine's result: both return
/// `spec_minimum_cost`.
pub fn simulate(hard: bool) -> (r: i32)
    ensures
        r as int == spec_minimum_cost(hard),
{
    let player = Player::new();
    let boss = Boss::new();
    proof {
        lemma_search_min_bounds(
            init_state().player,
            init_state().boss,
            init_state().turn,
            hard,
        );
    }
    _simulate(player, boss, Turn::Player, i32::MAX, hard)
}

} // verus!
