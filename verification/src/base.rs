//! Combat entities and the fixed spell catalog.

use vstd::prelude::*;

verus! {

/// The closed set of spell names. The catalog is fixed, so names are an enum
/// rather than strings: no lookup can fail.
#[derive(Clone, Copy, Debug)]
pub enum SpellName {
    Missile,
    Drain,
    Shield,
    Poison,
    Recharge,
}

/// One catalog entry: a mana cost and a payload, either instant
/// (`turns == 0`: `damage` and `heal` apply at once) or a multi-turn effect
/// (`turns > 0`: per-tick `damage`, `mana` gain, or `armor` bonus).
#[derive(Clone, Copy, Debug)]
pub struct Spell {
    pub name: SpellName,
    pub cost: i32,
    pub mana: i32,
    pub heal: i32,
    pub armor: i32,
    pub turns: i32,
    pub damage: i32,
}

/// The invariant fields of each catalog entry.
pub open spec fn spec_spell(name: SpellName) -> Spell {
    match name {
        SpellName::Missile => Spell {
            name: SpellName::Missile,
            cost: 53,
            mana: 0,
            heal: 0,
            armor: 0,
            turns: 0,
            damage: 4,
        },
        SpellName::Drain => Spell {
            name: SpellName::Drain,
            cost: 73,
            mana: 0,
            heal: 2,
            armor: 0,
            turns: 0,
            damage: 2,
        },
        SpellName::Shield => Spell {
            name: SpellName::Shield,
            cost: 113,
            mana: 0,
            heal: 0,
            armor: 7,
            turns: 6,
            damage: 0,
        },
        SpellName::Poison => Spell {
            name: SpellName::Poison,
            cost: 173,
            mana: 0,
            heal: 0,
            armor: 0,
            turns: 6,
            damage: 3,
        },
        SpellName::Recharge => Spell {
            name: SpellName::Recharge,
            cost: 229,
            mana: 101,
            heal: 0,
            armor: 0,
            turns: 5,
            damage: 0,
        },
    }
}

/// Catalog lookup. Total: every `SpellName` has exactly one entry.
pub fn get_spell(name: SpellName) -> (s: Spell)
    ensures
        s == spec_spell(name),
{
    match name {
        SpellName::Missile => Spell {
            name: SpellName::Missile,
            cost: 53,
            mana: 0,
            heal: 0,
            armor: 0,
            turns: 0,
            damage: 4,
        },
        SpellName::Drain => Spell {
            name: SpellName::Drain,
            cost: 73,
            mana: 0,
            heal: 2,
            armor: 0,
            turns: 0,
            damage: 2,
        },
        SpellName::Shield => Spell {
            name: SpellName::Shield,
            cost: 113,
            mana: 0,
            heal: 0,
            armor: 7,
            turns: 6,
            damage: 0,
        },
        SpellName::Poison => Spell {
            name: SpellName::Poison,
            cost: 173,
            mana: 0,
            heal: 0,
            armor: 0,
            turns: 6,
            damage: 3,
        },
        SpellName::Recharge => Spell {
            name: SpellName::Recharge,
            cost: 229,
            mana: 101,
            heal: 0,
            armor: 0,
            turns: 5,
            damage: 0,
        },
    }
}

/// Whose turn is resolved next.
#[derive(Clone, Copy, Debug)]
pub enum Turn {
    Boss,
    Player,
}

/// The adversary: life and a fixed attack power.
#[derive(Clone, Copy, Debug)]
pub struct Boss {
    pub life: i32,
    pub damage: i32,
}

/// The acting entity: life, mana pool, cumulative spend, and one remaining-turn
/// counter per duration spell (0 means inactive). The pool is wider than the
/// spend counter: regeneration can push it past what one spend step may reach,
/// and the extra width is what makes every addition provably free of overflow.
#[derive(Clone, Copy, Debug)]
pub struct Player {
    pub life: i32,
    pub mana: i64,
    pub spent: i32,
    pub shield: i32,
    pub poison: i32,
    pub recharge: i32,
}

/// The remaining-turn counter the player keeps for `name`; instant spells have
/// no counter, read as 0.
pub open spec fn spec_timer(p: Player, name: SpellName) -> int {
    match name {
        SpellName::Shield => p.shield as int,
        SpellName::Poison => p.poison as int,
        SpellName::Recharge => p.recharge as int,
        _ => 0,
    }
}

/// `p` with the counter for `name` set to `v`; identity for instant spells.
pub open spec fn with_timer(p: Player, name: SpellName, v: i32) -> Player {
    match name {
        SpellName::Shield => Player { shield: v, ..p },
        SpellName::Poison => Player { poison: v, ..p },
        SpellName::Recharge => Player { recharge: v, ..p },
        _ => p,
    }
}

/// `p` after one decay step of the effect `name`: the counter drops by one
/// when positive and stays at 0 otherwise (never negative).
pub open spec fn spec_decay(p: Player, name: SpellName) -> Player {
    if spec_timer(p, name) > 0 {
        with_timer(p, name, (spec_timer(p, name) - 1) as i32)
    } else {
        p
    }
}

/// How much life one adversary attack removes: attack power reduced by the
/// defensive bonus, but always at least 1.
pub open spec fn attack_amount(damage: i32, armor: i32) -> int {
    if damage - armor > 1 {
        damage - armor
    } else {
        1
    }
}

impl Boss {
    /// The fixed reference adversary.
    pub fn new() -> (b: Boss)
        ensures
            b == (Boss { life: 51, damage: 9 }),
    {
        Boss { life: 51, damage: 9 }
    }

    /// The adversary is defeated once its life is non-positive.
    pub fn dead(&self) -> (d: bool)
        ensures
            d == (self.life <= 0),
    {
        self.life <= 0
    }

    /// One adversary attack against `player` under a defensive bonus of
    /// `armor`. Returns true iff the player is dead afterwards.
    pub fn attack(&self, player: &mut Player, armor: i32) -> (dead: bool)
        requires
            i32::MIN <= self.damage - armor <= i32::MAX,
            i32::MIN <= old(player).life - attack_amount(self.damage, armor),
        ensures
            *final(player) == (Player {
                life: (old(player).life - attack_amount(self.damage, armor)) as i32,
                ..*old(player)
            }),
            dead == (final(player).life <= 0),
    {
        let hit = if self.damage - armor > 1 {
            self.damage - armor
        } else {
            1
        };
        player.life = player.life - hit;
        player.dead()
    }
}

impl Player {
    /// The fixed reference acting entity: full life, the starting mana pool,
    /// nothing spent, every effect inactive.
    pub fn new() -> (p: Player)
        ensures
            p == (Player { life: 50, mana: 500, spent: 0, shield: 0, poison: 0, recharge: 0 }),
    {
        Player { life: 50, mana: 500, spent: 0, shield: 0, poison: 0, recharge: 0 }
    }

    /// The player is dead once its life is non-positive.
    pub fn dead(&self) -> (d: bool)
        ensures
            d == (self.life <= 0),
    {
        self.life <= 0
    }

    /// Activate the effect of `spell`: its counter starts at `spell.turns`.
    /// Re-activating a currently active effect is disallowed.
    pub fn start(&mut self, spell: &Spell)
        requires
            spec_timer(*old(self), spell.name) <= 0,
        ensures
            *final(self) == with_timer(*old(self), spell.name, spell.turns),
    {
        match spell.name {
            SpellName::Shield => {
                self.shield = spell.turns;
            },
            SpellName::Poison => {
                self.poison = spell.turns;
            },
            SpellName::Recharge => {
                self.recharge = spell.turns;
            },
            _ => {},
        }
    }

    /// Cast `spell` at `boss`: the boss loses `spell.damage` life, the player
    /// gains `spell.heal`. Returns true iff the boss is dead afterwards.
    pub fn attack(&mut self, boss: &mut Boss, spell: &Spell) -> (dead: bool)
        requires
            i32::MIN <= old(boss).life - spell.damage <= i32::MAX,
            i32::MIN <= old(self).life + spell.heal <= i32::MAX,
        ensures
            *final(boss) == (Boss { life: (old(boss).life - spell.damage) as i32, ..*old(boss) }),
            *final(self) == (Player { life: (old(self).life + spell.heal) as i32, ..*old(self) }),
            dead == (final(boss).life <= 0),
    {
        boss.life = boss.life - spell.damage;
        self.life = self.life + spell.heal;
        boss.dead()
    }

    /// True iff the effect `name` is currently active (counter positive).
    pub fn active(&self, name: SpellName) -> (r: bool)
        ensures
            r == (spec_timer(*self, name) > 0),
    {
        match name {
            SpellName::Shield => self.shield > 0,
            SpellName::Poison => self.poison > 0,
            SpellName::Recharge => self.recharge > 0,
            _ => false,
        }
    }

    /// One decay step of the effect `name`. Returns true iff the effect was
    /// active and so fires this tick; a counter already at 0 stays at 0.
    pub fn consume(&mut self, name: SpellName) -> (fired: bool)
        ensures
            fired == (spec_timer(*old(self), name) > 0),
            *final(self) == spec_decay(*old(self), name),
    {
        match name {
            SpellName::Shield => {
                if self.shield <= 0 {
                    false
                } else {
                    self.shield = self.shield - 1;
                    true
                }
            },
            SpellName::Poison => {
                if self.poison <= 0 {
                    false
                } else {
                    self.poison = self.poison - 1;
                    true
                }
            },
            SpellName::Recharge => {
                if self.recharge <= 0 {
                    false
                } else {
                    self.recharge = self.recharge - 1;
                    true
                }
            },
            _ => false,
        }
    }
}

/// One node of the search space: snapshots of both entities and whose turn is
/// resolved next. Branching copies the whole state, so siblings never alias.
#[derive(Clone, Copy, Debug)]
pub struct SearchState {
    pub player: Player,
    pub boss: Boss,
    pub turn: Turn,
}

} // verus!
