//! Mathematical model of the duel search.
//!
//! `search_min` is the exact value of a search node: the least cumulative
//! spend over all winning action sequences from that node (capped only by
//! what the spend counter can represent), or `inf()` when none wins. It is
//! defined without any best-bound pruning; both engines are proved to return
//! `min(bound, search_min(...))`, which is the statement that pruning never
//! loses the optimum.

use vstd::prelude::*;
use crate::base::SpellName;
use crate::base::Spell;
use crate::base::Turn;
use crate::base::Boss;
use crate::base::Player;
use crate::base::SearchState;
use crate::base::spec_spell;
use crate::base::spec_timer;
use crate::base::with_timer;
use crate::base::spec_decay;
use crate::base::attack_amount;

verus! {

/// The "no winning sequence" value, and the cap on representable spends.
pub open spec fn inf() -> int {
    i32::MAX as int
}

pub open spec fn min_int(a: int, b: int) -> int {
    if a <= b {
        a
    } else {
        b
    }
}

/// Order used for termination: within one spend level, the adversary's turn
/// resolves before the next player turn.
pub open spec fn turn_rank(t: Turn) -> int {
    match t {
        Turn::Player => 0,
        Turn::Boss => 1,
    }
}

/// The catalog's iteration order.
pub open spec fn nth_spell(i: int) -> SpellName {
    if i == 0 {
        SpellName::Missile
    } else if i == 1 {
        SpellName::Drain
    } else if i == 2 {
        SpellName::Shield
    } else if i == 3 {
        SpellName::Poison
    } else {
        SpellName::Recharge
    }
}

/// Tick step 1: in hard mode the acting entity loses one life on entering its
/// own turn, before anything else — and only then.
pub open spec fn after_hard(p: Player, turn: Turn, hard: bool) -> Player {
    if hard && turn is Player {
        Player { life: (p.life - 1) as i32, ..p }
    } else {
        p
    }
}

/// Tick step 2: does the periodic-damage effect fire this tick?
pub open spec fn poison_fires(p: Player) -> bool {
    p.poison > 0
}

pub open spec fn poison_player(p: Player) -> Player {
    spec_decay(p, SpellName::Poison)
}

pub open spec fn poison_boss(p: Player, b: Boss) -> Boss {
    if poison_fires(p) {
        Boss { life: (b.life - spec_spell(SpellName::Poison).damage) as i32, ..b }
    } else {
        b
    }
}

/// Tick step 3: the regeneration effect decays and, if it fired, adds its
/// periodic mana gain.
pub open spec fn recharge_player(p: Player) -> Player {
    if p.recharge > 0 {
        Player {
            mana: (p.mana + spec_spell(SpellName::Recharge).mana) as i64,
            ..spec_decay(p, SpellName::Recharge)
        }
    } else {
        p
    }
}

/// Tick step 4: the defensive bonus for this tick — the shield's bonus while
/// the effect fires, else 0.
pub open spec fn shield_bonus(p: Player) -> i32 {
    if p.shield > 0 {
        spec_spell(SpellName::Shield).armor
    } else {
        0
    }
}

pub open spec fn shield_player(p: Player) -> Player {
    spec_decay(p, SpellName::Shield)
}

/// The player after tick steps 2 to 4 (given step 1 already applied).
pub open spec fn ticked_player(p: Player) -> Player {
    shield_player(recharge_player(poison_player(p)))
}

/// May `sp` be selected? It must be affordable, the resulting spend must stay
/// representable, and a duration spell must not already be active.
pub open spec fn spell_castable(p: Player, sp: Spell) -> bool {
    &&& sp.cost <= p.mana
    &&& p.spent + sp.cost <= inf()
    &&& spec_timer(p, sp.name) <= 0
}

/// Pay for a cast: mana down, cumulative spend up.
pub open spec fn pay(p: Player, sp: Spell) -> Player {
    Player { mana: (p.mana - sp.cost) as i64, spent: (p.spent + sp.cost) as i32, ..p }
}

/// Cast a duration spell: pay and start its effect.
pub open spec fn cast_effect(p: Player, sp: Spell) -> Player {
    with_timer(pay(p, sp), sp.name, sp.turns)
}

/// Cast an instant spell: pay and apply heal; the boss takes the damage.
pub open spec fn cast_instant_player(p: Player, sp: Spell) -> Player {
    Player { life: (p.life + sp.heal) as i32, ..pay(p, sp) }
}

pub open spec fn cast_boss(b: Boss, sp: Spell) -> Boss {
    Boss { life: (b.life - sp.damage) as i32, ..b }
}

/// The exact value of a search node: the least final spend over all winning
/// sequences from `(p, b, turn)`, or `inf()` if none wins. The per-tick
/// transition of one expansion is applied in its fixed order: hard-mode life
/// loss, periodic damage (a kill here is a win at the current spend),
/// regeneration, defence, then the turn's main action.
pub open spec fn search_min(p: Player, b: Boss, turn: Turn, hard: bool) -> int
    decreases inf() - p.spent, turn_rank(turn), 1int, 0int,
{
    let ph = after_hard(p, turn, hard);
    if hard && turn is Player && ph.life <= 0 {
        inf()
    } else {
        let b2 = poison_boss(ph, b);
        if poison_fires(ph) && b2.life <= 0 {
            ph.spent as int
        } else {
            let armor = shield_bonus(recharge_player(poison_player(ph)));
            let pt = ticked_player(ph);
            match turn {
                Turn::Boss => {
                    let pa = Player {
                        life: (pt.life - attack_amount(b2.damage, armor)) as i32,
                        ..pt
                    };
                    if pa.life <= 0 {
                        inf()
                    } else {
                        search_min(pa, b2, Turn::Player, hard)
                    }
                },
                Turn::Player => best_from(pt, b2, hard, 0),
            }
        }
    }
}

/// The best value over the catalog actions with index at least `i` from a
/// player-turn node whose tick already resolved: for each castable spell,
/// either an instant kill wins at the new spend, or the search continues on
/// the adversary's turn.
pub open spec fn best_from(p: Player, b: Boss, hard: bool, i: int) -> int
    decreases inf() - p.spent, 0int, 0int, 5 - i,
{
    if i >= 5 {
        inf()
    } else {
        let rest = best_from(p, b, hard, i + 1);
        let sp = spec_spell(nth_spell(i));
        if spell_castable(p, sp) {
            let contribution = if sp.turns > 0 {
                search_min(cast_effect(p, sp), b, Turn::Boss, hard)
            } else {
                let b2 = cast_boss(b, sp);
                let p2 = cast_instant_player(p, sp);
                if b2.life <= 0 {
                    p2.spent as int
                } else {
                    search_min(p2, b2, Turn::Boss, hard)
                }
            };
            min_int(contribution, rest)
        } else {
            rest
        }
    }
}

/// The best value over a sequence of search nodes; `inf()` for none.
pub open spec fn seq_best(cs: Seq<SearchState>, hard: bool) -> int
    decreases cs.len(),
{
    if cs.len() == 0 {
        inf()
    } else {
        min_int(
            search_min(cs[0].player, cs[0].boss, cs[0].turn, hard),
            seq_best(cs.subrange(1, cs.len() as int), hard),
        )
    }
}

/// The number of search nodes the unpruned search tree below a node holds
/// (the node itself included). Pruning only ever visits fewer, so this bounds
/// the work of either engine and justifies their termination.
pub open spec fn tree_size(p: Player, b: Boss, turn: Turn, hard: bool) -> nat
    decreases inf() - p.spent, turn_rank(turn), 1int, 0int,
{
    let ph = after_hard(p, turn, hard);
    if hard && turn is Player && ph.life <= 0 {
        1
    } else {
        let b2 = poison_boss(ph, b);
        if poison_fires(ph) && b2.life <= 0 {
            1
        } else {
            let armor = shield_bonus(recharge_player(poison_player(ph)));
            let pt = ticked_player(ph);
            match turn {
                Turn::Boss => {
                    let pa = Player {
                        life: (pt.life - attack_amount(b2.damage, armor)) as i32,
                        ..pt
                    };
                    if pa.life <= 0 {
                        1
                    } else {
                        1 + tree_size(pa, b2, Turn::Player, hard)
                    }
                },
                Turn::Player => 1 + size_from(pt, b2, hard, 0),
            }
        }
    }
}

/// Total size of the subtrees under the catalog actions with index at least
/// `i`; a pruned or winning action contributes no child node.
pub open spec fn size_from(p: Player, b: Boss, hard: bool, i: int) -> nat
    decreases inf() - p.spent, 0int, 0int, 5 - i,
{
    if i >= 5 {
        0
    } else {
        let rest = size_from(p, b, hard, i + 1);
        let sp = spec_spell(nth_spell(i));
        if spell_castable(p, sp) {
            let add = if sp.turns > 0 {
                tree_size(cast_effect(p, sp), b, Turn::Boss, hard)
            } else {
                let b2 = cast_boss(b, sp);
                if b2.life <= 0 {
                    0
                } else {
                    tree_size(cast_instant_player(p, sp), b2, Turn::Boss, hard)
                }
            };
            add + rest
        } else {
            rest
        }
    }
}

/// Total unpruned tree size over a sequence of nodes.
pub open spec fn seq_size(cs: Seq<SearchState>, hard: bool) -> nat
    decreases cs.len(),
{
    if cs.len() == 0 {
        0
    } else {
        tree_size(cs[0].player, cs[0].boss, cs[0].turn, hard) + seq_size(
            cs.subrange(1, cs.len() as int),
            hard,
        )
    }
}

/// Appending one node adds that node's tree size.
pub proof fn lemma_seq_size_push(cs: Seq<SearchState>, c: SearchState, hard: bool)
    ensures
        seq_size(cs.push(c), hard) == seq_size(cs, hard) + tree_size(c.player, c.boss, c.turn, hard),
    decreases cs.len(),
{
    reveal_with_fuel(seq_size, 2);
    if cs.len() == 0 {
        assert(cs.push(c)[0] == c);
        assert(cs.push(c).subrange(1, cs.push(c).len() as int) =~= Seq::<SearchState>::empty());
    } else {
        assert(cs.push(c)[0] == cs[0]);
        assert(cs.push(c).subrange(1, cs.push(c).len() as int) =~= cs.subrange(
            1,
            cs.len() as int,
        ).push(c));
        lemma_seq_size_push(cs.subrange(1, cs.len() as int), c, hard);
    }
}

/// Concatenation adds the two totals.
pub proof fn lemma_seq_size_concat(a: Seq<SearchState>, b: Seq<SearchState>, hard: bool)
    ensures
        seq_size(a + b, hard) == seq_size(a, hard) + seq_size(b, hard),
    decreases a.len(),
{
    if a.len() == 0 {
        assert(a + b =~= b);
    } else {
        assert((a + b).subrange(1, (a + b).len() as int) =~= a.subrange(1, a.len() as int) + b);
        assert((a + b)[0] == a[0]);
        lemma_seq_size_concat(a.subrange(1, a.len() as int), b, hard);
    }
}

/// The initial node of the reference duel.
pub open spec fn init_state() -> SearchState {
    SearchState {
        player: Player { life: 50, mana: 500, spent: 0, shield: 0, poison: 0, recharge: 0 },
        boss: Boss { life: 51, damage: 9 },
        turn: Turn::Player,
    }
}

/// What both engines compute: the least total spend that defeats the
/// reference adversary in the chosen mode.
pub open spec fn spec_minimum_cost(hard: bool) -> int {
    search_min(init_state().player, init_state().boss, init_state().turn, hard)
}

/// Reachable-state invariant of the engines' search nodes. The life bounds
/// hold because one adversary attack removes at least 2 life (attack power 9,
/// bonus at most 7) while one action heals at most 2; the mana bound holds
/// because regeneration yields at most 505 mana per 229 spent.
pub open spec fn wf_player(p: Player, turn: Turn) -> bool {
    &&& 0 <= p.spent
    &&& 1 <= p.life
    &&& p.life <= if turn is Player { 50int } else { 52int }
    &&& 0 <= p.mana
    &&& p.mana + 101 * p.recharge <= 500 + 3 * p.spent
    &&& 0 <= p.shield <= 6
    &&& 0 <= p.poison <= 6
    &&& 0 <= p.recharge <= 5
}

pub open spec fn wf_boss(b: Boss) -> bool {
    1 <= b.life <= 51 && b.damage == 9
}

pub open spec fn wf_state(p: Player, b: Boss, turn: Turn) -> bool {
    wf_player(p, turn) && wf_boss(b)
}

/// A strict drop in the termination order: the child spent more, or spent the
/// same and moved from the player's turn to the adversary's reply being done.
pub open spec fn state_below(c: SearchState, s: SearchState) -> bool {
    c.player.spent > s.player.spent || (c.player.spent == s.player.spent && turn_rank(c.turn)
        < turn_rank(s.turn))
}

/// A node's value is never below its current spend (every win from it only
/// spends more) and never above `inf()`. This is what makes best-bound
/// pruning sound: a branch whose next spend already exceeds the bound cannot
/// hold a better win.
pub proof fn lemma_search_min_bounds(p: Player, b: Boss, turn: Turn, hard: bool)
    requires
        0 <= p.spent,
    ensures
        p.spent <= search_min(p, b, turn, hard) <= inf(),
    decreases inf() - p.spent, turn_rank(turn), 1int, 0int,
{
    let ph = after_hard(p, turn, hard);
    if hard && turn is Player && ph.life <= 0 {
    } else {
        let b2 = poison_boss(ph, b);
        if poison_fires(ph) && b2.life <= 0 {
        } else {
            let armor = shield_bonus(recharge_player(poison_player(ph)));
            let pt = ticked_player(ph);
            match turn {
                Turn::Boss => {
                    let pa = Player {
                        life: (pt.life - attack_amount(b2.damage, armor)) as i32,
                        ..pt
                    };
                    if pa.life <= 0 {
                    } else {
                        lemma_search_min_bounds(pa, b2, Turn::Player, hard);
                    }
                },
                Turn::Player => {
                    lemma_best_from_bounds(pt, b2, hard, 0);
                },
            }
        }
    }
}

/// Bounds for the per-spell fold: see `lemma_search_min_bounds`.
pub proof fn lemma_best_from_bounds(p: Player, b: Boss, hard: bool, i: int)
    requires
        0 <= p.spent,
    ensures
        p.spent <= best_from(p, b, hard, i) <= inf(),
    decreases inf() - p.spent, 0int, 0int, 5 - i,
{
    if i >= 5 {
    } else {
        lemma_best_from_bounds(p, b, hard, i + 1);
        let sp = spec_spell(nth_spell(i));
        if spell_castable(p, sp) {
            if sp.turns > 0 {
                lemma_search_min_bounds(cast_effect(p, sp), b, Turn::Boss, hard);
            } else {
                let b2 = cast_boss(b, sp);
                let p2 = cast_instant_player(p, sp);
                if b2.life <= 0 {
                } else {
                    lemma_search_min_bounds(p2, b2, Turn::Boss, hard);
                }
            }
        }
    }
}

/// A duration action cannot be selected while its effect is currently active:
/// when the counter of catalog action `i` is still positive, the player-turn
/// value over actions from `i` on is the value over the remaining actions
/// alone — the active action contributes no branch.
pub proof fn lemma_active_effect_not_selected(p: Player, b: Boss, hard: bool, i: int)
    requires
        0 <= i < 5,
        spec_timer(p, nth_spell(i)) > 0,
    ensures
        best_from(p, b, hard, i) == best_from(p, b, hard, i + 1),
{
    assert(!spell_castable(p, spec_spell(nth_spell(i))));
}

/// Hard-mode life loss happens exactly once on entering the acting entity's
/// turn, before anything else; when that loss is fatal the branch ends at
/// once: it records no win (value `inf()`) and expands no further node.
pub proof fn lemma_hard_entry_death(p: Player, b: Boss)
    requires
        i32::MIN < p.life <= 1,
    ensures
        search_min(p, b, Turn::Player, true) == inf(),
        tree_size(p, b, Turn::Player, true) == 1,
{
}

/// The best over a node sequence never exceeds `inf()`.
pub proof fn lemma_seq_best_ub(cs: Seq<SearchState>, hard: bool)
    ensures
        seq_best(cs, hard) <= inf(),
    decreases cs.len(),
{
    if cs.len() != 0 {
        lemma_seq_best_ub(cs.subrange(1, cs.len() as int), hard);
    }
}

/// Appending one node takes the minimum with that node's value.
pub proof fn lemma_seq_best_push(cs: Seq<SearchState>, c: SearchState, hard: bool)
    ensures
        seq_best(cs.push(c), hard) == min_int(
            seq_best(cs, hard),
            search_min(c.player, c.boss, c.turn, hard),
        ),
    decreases cs.len(),
{
    reveal_with_fuel(seq_best, 2);
    if cs.len() == 0 {
        assert(cs.push(c)[0] == c);
        assert(cs.push(c).subrange(1, cs.push(c).len() as int) =~= Seq::<SearchState>::empty());
    } else {
        assert(cs.push(c)[0] == cs[0]);
        assert(cs.push(c).subrange(1, cs.push(c).len() as int) =~= cs.subrange(
            1,
            cs.len() as int,
        ).push(c));
        lemma_seq_best_push(cs.subrange(1, cs.len() as int), c, hard);
    }
}

/// Concatenation takes the minimum of the two bests.
pub proof fn lemma_seq_best_concat(a: Seq<SearchState>, b: Seq<SearchState>, hard: bool)
    ensures
        seq_best(a + b, hard) == min_int(seq_best(a, hard), seq_best(b, hard)),
    decreases a.len(),
{
    if a.len() == 0 {
        assert(a + b =~= b);
        lemma_seq_best_ub(b, hard);
    } else {
        assert((a + b).subrange(1, (a + b).len() as int) =~= a.subrange(1, a.len() as int) + b);
        assert((a + b)[0] == a[0]);
        lemma_seq_best_concat(a.subrange(1, a.len() as int), b, hard);
    }
}

} // verus!
