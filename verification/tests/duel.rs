use duel_search::base::Boss;
use duel_search::base::Player;
use duel_search::base::SearchState;
use duel_search::base::SpellName;
use duel_search::base::Turn;
use duel_search::base::get_spell;
use duel_search::bfs;
use duel_search::dfs;
use duel_search::tick::expand;

#[test]
fn bfs_it_should_work_on_easy_mode() {
    assert_eq!(bfs::simulate(false), 900);
}

#[test]
fn bfs_it_should_work_on_hard_mode() {
    assert_eq!(bfs::simulate(true), 1_216);
}

#[test]
fn dfs_it_should_work_on_easy_mode() {
    assert_eq!(dfs::simulate(false), 900);
}

#[test]
fn dfs_it_should_work_on_hard_mode() {
    assert_eq!(dfs::simulate(true), 1_216);
}

#[test]
fn engines_agree_on_both_modes() {
    assert_eq!(bfs::simulate(false), dfs::simulate(false));
    assert_eq!(bfs::simulate(true), dfs::simulate(true));
}

#[test]
fn catalog_has_the_fixed_entries() {
    let missile = get_spell(SpellName::Missile);
    assert_eq!((missile.cost, missile.damage, missile.turns), (53, 4, 0));
    let drain = get_spell(SpellName::Drain);
    assert_eq!((drain.cost, drain.damage, drain.heal, drain.turns), (73, 2, 2, 0));
    let shield = get_spell(SpellName::Shield);
    assert_eq!((shield.cost, shield.armor, shield.turns), (113, 7, 6));
    let poison = get_spell(SpellName::Poison);
    assert_eq!((poison.cost, poison.damage, poison.turns), (173, 3, 6));
    let recharge = get_spell(SpellName::Recharge);
    assert_eq!((recharge.cost, recharge.mana, recharge.turns), (229, 101, 5));
}

#[test]
fn decay_at_zero_returns_false_and_stays_zero() {
    let mut player = Player::new();
    assert!(!player.consume(SpellName::Poison));
    assert!(!player.consume(SpellName::Shield));
    assert!(!player.consume(SpellName::Recharge));
    assert_eq!(player.poison, 0);
    assert_eq!(player.shield, 0);
    assert_eq!(player.recharge, 0);
    assert!(!player.consume(SpellName::Missile));
}

#[test]
fn decay_of_active_effect_fires_and_counts_down() {
    let mut player = Player::new();
    let poison = get_spell(SpellName::Poison);
    player.start(&poison);
    assert_eq!(player.poison, 6);
    assert!(player.active(SpellName::Poison));
    assert!(player.consume(SpellName::Poison));
    assert_eq!(player.poison, 5);
}

#[test]
fn adversary_attack_removes_at_least_one_life() {
    let boss = Boss::new();
    let mut player = Player::new();
    // Bonus above the attack power: still one point of damage.
    assert!(!boss.attack(&mut player, 20));
    assert_eq!(player.life, 49);
    // Shield bonus 7 against attack power 9: two points.
    assert!(!boss.attack(&mut player, 7));
    assert_eq!(player.life, 47);
    // No bonus: the full nine.
    assert!(!boss.attack(&mut player, 0));
    assert_eq!(player.life, 38);
}

#[test]
fn instant_cast_applies_damage_and_heal() {
    let mut boss = Boss::new();
    let mut player = Player::new();
    let drain = get_spell(SpellName::Drain);
    assert!(!player.attack(&mut boss, &drain));
    assert_eq!(boss.life, 49);
    assert_eq!(player.life, 52);
    boss.life = 2;
    let missile = get_spell(SpellName::Missile);
    assert!(player.attack(&mut boss, &missile));
    assert_eq!(boss.life, -2);
}

#[test]
fn active_effects_are_not_selected_again() {
    // All three effects active: only the two instant spells branch, and the
    // counters of the active effects count down rather than reset.
    let state = SearchState {
        player: Player { life: 50, mana: 500, spent: 229, shield: 6, poison: 6, recharge: 5 },
        boss: Boss { life: 51, damage: 9 },
        turn: Turn::Player,
    };
    let (bound, children) = expand(&state, false, i32::MAX);
    assert_eq!(bound, i32::MAX);
    assert_eq!(children.len(), 2);
    for child in &children {
        assert_eq!(child.player.shield, 5);
        assert_eq!(child.player.poison, 5);
        assert_eq!(child.player.recharge, 4);
        // Regeneration fired during the tick: 101 mana in, then the cast.
        assert_eq!(child.player.mana + child.player.spent as i64 - 229, 601);
    }
    // Poison took 3 from the adversary during the tick; then the cast hit.
    assert_eq!(children[0].boss.life, 44);  // missile: 48 - 4
    assert_eq!(children[1].boss.life, 46);  // drain: 48 - 2
}

#[test]
fn hard_mode_fatal_entry_ends_branch_with_no_win() {
    let state = SearchState {
        player: Player { life: 1, mana: 500, spent: 0, shield: 0, poison: 0, recharge: 0 },
        boss: Boss { life: 51, damage: 9 },
        turn: Turn::Player,
    };
    let (bound, children) = expand(&state, true, 12_345);
    assert_eq!(bound, 12_345);
    assert!(children.is_empty());
}

#[test]
fn hard_mode_costs_exactly_one_life_on_turn_entry() {
    let state = SearchState {
        player: Player { life: 2, mana: 500, spent: 0, shield: 0, poison: 0, recharge: 0 },
        boss: Boss { life: 51, damage: 9 },
        turn: Turn::Player,
    };
    let (_, children) = expand(&state, true, i32::MAX);
    // Every spell is affordable and inactive: five branches, in catalog order.
    assert_eq!(children.len(), 5);
    assert_eq!(children[0].player.life, 1);  // missile: 2 - 1
    assert_eq!(children[1].player.life, 3);  // drain: 2 - 1 + 2
    assert_eq!(children[2].player.life, 1);
    assert_eq!(children[0].player.spent, 53);
    assert_eq!(children[4].player.spent, 229);
}

#[test]
fn periodic_damage_win_lowers_the_bound() {
    // Poison alone finishes the adversary during the tick: the branch ends
    // and the bound drops to the spend already committed.
    let state = SearchState {
        player: Player { life: 50, mana: 500, spent: 700, shield: 0, poison: 1, recharge: 0 },
        boss: Boss { life: 3, damage: 9 },
        turn: Turn::Player,
    };
    let (bound, children) = expand(&state, false, i32::MAX);
    assert_eq!(bound, 700);
    assert!(children.is_empty());
}

#[test]
fn adversary_turn_attacks_and_hands_back_the_turn() {
    let state = SearchState {
        player: Player { life: 20, mana: 100, spent: 300, shield: 1, poison: 0, recharge: 0 },
        boss: Boss { life: 10, damage: 9 },
        turn: Turn::Boss,
    };
    let (bound, children) = expand(&state, false, i32::MAX);
    assert_eq!(bound, i32::MAX);
    assert_eq!(children.len(), 1);
    // The shield fired on its last turn: the attack only lands for two.
    assert_eq!(children[0].player.life, 18);
    assert_eq!(children[0].player.shield, 0);
    assert!(matches!(children[0].turn, Turn::Player));
}

#[test]
fn adversary_turn_kill_ends_branch_without_win() {
    let state = SearchState {
        player: Player { life: 5, mana: 100, spent: 300, shield: 0, poison: 0, recharge: 0 },
        boss: Boss { life: 10, damage: 9 },
        turn: Turn::Boss,
    };
    let (bound, children) = expand(&state, false, 40_000);
    assert_eq!(bound, 40_000);
    assert!(children.is_empty());
}

#[test]
fn bound_never_increases_and_prunes_costlier_wins() {
    // A bound below the true minimum is returned unchanged: every winning
    // sequence costs at least 900, so nothing beats 100.
    let result = dfs::_simulate(Player::new(), Boss::new(), Turn::Player, 100, false);
    assert_eq!(result, 100);
    // A bound above it is lowered exactly to the minimum.
    let result = dfs::_simulate(Player::new(), Boss::new(), Turn::Player, 1_000, false);
    assert_eq!(result, 900);
}
