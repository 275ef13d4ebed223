//! The shared per-expansion transition of both search engines.
//!
//! `expand` resolves one tick on a search node under the current best bound
//! `m`: effect decay and payloads, then the turn's main action. It returns the
//! updated bound together with every non-terminal child node. Its contract is
//! the branch-and-bound step: the minimum of the new bound and the children's
//! exact values equals the minimum of the old bound and the node's exact
//! value, so pruning never loses the optimum and the bound never increases.

use vstd::prelude::*;
use crate::base::SpellName;
use crate::base::Spell;
use crate::base::Turn;
use crate::base::Boss;
use crate::base::Player;
use crate::base::SearchState;
use crate::base::get_spell;
use crate::base::spec_spell;
use crate::model::inf;
use crate::model::min_int;
use crate::model::nth_spell;
use crate::model::after_hard;
use crate::model::poison_fires;
use crate::model::poison_player;
use crate::model::poison_boss;
use crate::model::recharge_player;
use crate::model::shield_bonus;
use crate::model::ticked_player;
use crate::model::spell_castable;
use crate::model::pay;
use crate::model::cast_effect;
use crate::model::cast_instant_player;
use crate::model::cast_boss;
use crate::model::search_min;
use crate::model::best_from;
use crate::model::seq_best;
use crate::model::tree_size;
use crate::model::size_from;
use crate::model::seq_size;
use crate::model::lemma_seq_size_push;
use crate::model::wf_state;
use crate::model::state_below;
use crate::model::lemma_search_min_bounds;
use crate::model::lemma_seq_best_push;
use crate::model::lemma_seq_best_ub;

verus! {

/// A child node an engine may store: it satisfies the reachable-state
/// invariant and sits strictly below its parent in the termination order.
pub open spec fn good_child(c: SearchState, s: SearchState) -> bool {
    wf_state(c.player, c.boss, c.turn) && state_below(c, s)
}

/// The catalog in its fixed iteration order.
pub fn spell_by_index(i: usize) -> (s: Spell)
    requires
        i < 5,
    ensures
        s == spec_spell(nth_spell(i as int)),
{
    match i {
        0 => get_spell(SpellName::Missile),
        1 => get_spell(SpellName::Drain),
        2 => get_spell(SpellName::Shield),
        3 => get_spell(SpellName::Poison),
        _ => get_spell(SpellName::Recharge),
    }
}

/// Invariant of the acting entity right after a tick on its own turn: alive,
/// nothing owed, and the mana bound that regeneration preserves.
pub open spec fn wf_ticked(p: Player) -> bool {
    &&& 0 <= p.spent
    &&& 1 <= p.life <= 50
    &&& 0 <= p.mana
    &&& p.mana + 101 * p.recharge <= 500 + 3 * p.spent
    &&& 0 <= p.shield <= 6
    &&& 0 <= p.poison <= 6
    &&& 0 <= p.recharge <= 5
}

/// One step of the player's branching: consider catalog action `i` on the
/// ticked state `(p, b)`. A selectable action either wins at once (lowering
/// the bound) or adds one child node; a non-selectable or pruned action
/// changes nothing. The branch-and-bound equation threads through.
#[verifier::rlimit(50)]
fn cast_step(
    p: &Player,
    b: &Boss,
    hard: bool,
    i: usize,
    m2: i32,
    children: &mut Vec<SearchState>,
    Ghost(parent): Ghost<SearchState>,
) -> (m3: i32)
    requires
        i < 5,
        wf_ticked(*p),
        1 <= b.life <= 51,
        b.damage == 9,
        0 <= m2,
        p.spent == parent.player.spent,
        parent.turn is Player,
        forall|k: int| 0 <= k < old(children)@.len() ==> good_child(#[trigger] old(children)@[k], parent),
    ensures
        0 <= m3 <= m2,
        min_int(
            m3 as int,
            min_int(seq_best(final(children)@, hard), best_from(*p, *b, hard, i as int + 1)),
        ) == min_int(
            m2 as int,
            min_int(seq_best(old(children)@, hard), best_from(*p, *b, hard, i as int)),
        ),
        forall|k: int| 0 <= k < final(children)@.len() ==> good_child(
            #[trigger] final(children)@[k],
            parent,
        ),
        seq_size(final(children)@, hard) + size_from(*p, *b, hard, i as int + 1) <= seq_size(
            old(children)@,
            hard,
        ) + size_from(*p, *b, hard, i as int),
{
    let sp = spell_by_index(i);
    let ghost spg = spec_spell(nth_spell(i as int));
    let ghost rest = best_from(*p, *b, hard, i as int + 1);
    let mut m3 = m2;
    let affordable = (sp.cost as i64) <= p.mana;
    let within = p.spent <= m2 - sp.cost;
    let already = p.active(sp.name);
    if affordable && within && !already {
        assert(spell_castable(*p, spg));
        let mut cp = *p;
        cp.mana = cp.mana - sp.cost as i64;
        cp.spent = cp.spent + sp.cost;
        assert(cp == pay(*p, spg));
        if sp.turns > 0 {
            cp.start(&sp);
            let c = SearchState { player: cp, boss: *b, turn: Turn::Boss };
            proof {
                assert(c.player == cast_effect(*p, spg));
                lemma_search_min_bounds(c.player, c.boss, c.turn, hard);
                lemma_seq_best_push(children@, c, hard);
                lemma_seq_size_push(children@, c, hard);
            }
            children.push(c);
        } else {
            let mut cb = *b;
            let dead = cp.attack(&mut cb, &sp);
            if dead {
                assert(best_from(*p, *b, hard, i as int) == min_int(
                    cast_instant_player(*p, spg).spent as int,
                    rest,
                ));
                if cp.spent < m3 {
                    m3 = cp.spent;
                }
            } else {
                let c = SearchState { player: cp, boss: cb, turn: Turn::Boss };
                proof {
                    assert(c.player == cast_instant_player(*p, spg));
                    assert(c.boss == cast_boss(*b, spg));
                    lemma_search_min_bounds(c.player, c.boss, c.turn, hard);
                    lemma_seq_best_push(children@, c, hard);
                    lemma_seq_size_push(children@, c, hard);
                }
                children.push(c);
            }
        }
    } else {
        proof {
            if spell_castable(*p, spg) {
                // Pruned: the spend after this cast already exceeds the
                // bound, and no win below it can follow.
                assert(p.spent + spg.cost > m2);
                if spg.turns > 0 {
                    lemma_search_min_bounds(cast_effect(*p, spg), *b, Turn::Boss, hard);
                } else {
                    let cb = cast_boss(*b, spg);
                    let cpp = cast_instant_player(*p, spg);
                    if cb.life <= 0 {
                    } else {
                        lemma_search_min_bounds(cpp, cb, Turn::Boss, hard);
                    }
                }
            }
        }
    }
    m3
}

/// Expand one search node under best bound `m`: apply the tick, record any
/// win found here into the bound, and return the non-terminal children.
#[verifier::loop_isolation(false)]
#[verifier::rlimit(80)]
pub fn expand(s: &SearchState, hard: bool, m: i32) -> (r: (i32, Vec<SearchState>))
    requires
        wf_state(s.player, s.boss, s.turn),
        0 <= m,
    ensures
        0 <= r.0 <= m,
        min_int(r.0 as int, seq_best(r.1@, hard)) == min_int(
            m as int,
            search_min(s.player, s.boss, s.turn, hard),
        ),
        forall|k: int| 0 <= k < r.1@.len() ==> good_child(#[trigger] r.1@[k], *s),
        seq_size(r.1@, hard) < tree_size(s.player, s.boss, s.turn, hard),
{
    let ghost sm = search_min(s.player, s.boss, s.turn, hard);
    let ghost ts = tree_size(s.player, s.boss, s.turn, hard);
    let mut children: Vec<SearchState> = Vec::new();
    let mut m2 = m;
    let mut p = s.player;
    let is_player_turn = match s.turn {
        Turn::Player => true,
        Turn::Boss => false,
    };

    if hard && is_player_turn {
        p.life = p.life - 1;
        if p.life <= 0 {
            assert(sm == inf());
            return (m2, children);
        }
    }
    let ghost ph = after_hard(s.player, s.turn, hard);
    assert(p == ph);

    let mut b = s.boss;
    let poison_sp = get_spell(SpellName::Poison);
    if p.consume(SpellName::Poison) {
        let dead = p.attack(&mut b, &poison_sp);
        if dead {
            assert(sm == ph.spent as int);
            if p.spent < m2 {
                m2 = p.spent;
            }
            return (m2, children);
        }
    }
    let ghost b2 = poison_boss(ph, s.boss);
    assert(p == poison_player(ph) && b == b2);
    assert(!(poison_fires(ph) && b2.life <= 0));

    if p.consume(SpellName::Recharge) {
        let recharge_sp = get_spell(SpellName::Recharge);
        p.mana = p.mana + recharge_sp.mana as i64;
    }
    let ghost p3 = recharge_player(poison_player(ph));
    assert(p == p3);

    let shield_sp = get_spell(SpellName::Shield);
    let armor = if p.consume(SpellName::Shield) {
        shield_sp.armor
    } else {
        0
    };
    let ghost pt = ticked_player(ph);
    assert(p == pt && armor == shield_bonus(p3));

    if !is_player_turn {
        let dead = b.attack(&mut p, armor);
        if !dead {
            let c = SearchState { player: p, boss: b, turn: Turn::Player };
            proof {
                lemma_search_min_bounds(c.player, c.boss, c.turn, hard);
                lemma_seq_best_push(children@, c, hard);
                lemma_seq_size_push(children@, c, hard);
                assert(ts == 1 + tree_size(c.player, c.boss, c.turn, hard));
            }
            children.push(c);
            assert(sm == search_min(c.player, c.boss, c.turn, hard));
        } else {
            assert(sm == inf());
        }
        return (m2, children);
    }

    assert(sm == best_from(pt, b2, hard, 0));
    assert(ts == 1 + size_from(pt, b2, hard, 0));
    assert(wf_ticked(p));
    let ghost goal = min_int(m as int, sm);
    let mut i: usize = 0;
    while i < 5
        invariant
            i <= 5,
            0 <= m2 <= m,
            min_int(
                m2 as int,
                min_int(seq_best(children@, hard), best_from(p, b, hard, i as int)),
            ) == goal,
            seq_size(children@, hard) + size_from(p, b, hard, i as int) <= size_from(
                p,
                b,
                hard,
                0,
            ),
            forall|k: int| 0 <= k < children@.len() ==> good_child(#[trigger] children@[k], *s),
        decreases 5 - i,
    {
        m2 = cast_step(&p, &b, hard, i, m2, &mut children, Ghost(*s));
        i = i + 1;
    }
    proof {
        assert(best_from(p, b, hard, 5) == inf());
        assert(size_from(p, b, hard, 5) == 0);
        lemma_seq_best_ub(children@, hard);
    }
    (m2, children)
}

} // verus!
