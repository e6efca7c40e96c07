//! The damage model: raw power, the weapon's multiplier and a critical
//! roll, evaluated once per hit.

use crate::errors::{GameError, Nresult};
use crate::weapons::Weapon;
use vstd::prelude::*;

verus! {

/// A critical hit multiplies the damage by this.
pub const CRIT_MULTIPLIER: u64 = 2;

/// Chances are stored in millionths: `CHANCE_SCALE` stands for certainty.
pub const CHANCE_SCALE: u64 = 1_000_000;

/// Side effects that may accompany a hit.
pub enum Effects {
    /// Stuns the target for the given microseconds.
    Stun(u64),
}

/// A prospective hit. Its value is computed at most once and then kept.
pub struct Damage<'a> {
    /// Raw attack power.
    pub raw: u32,
    /// Attacker buff; the evaluation does not apply it.
    pub buff: u32,
    /// The weapon that strikes, if any.
    pub weapon: Option<&'a Weapon>,
    /// Forces a critical hit.
    pub crit_override: bool,
    /// The value, once evaluated.
    pub calculated: Option<u64>,
}

/// The roll `draw`, read as a fraction of 2^32 in `[0, 1)`, falls below
/// the chance `chance / CHANCE_SCALE`.
pub open spec fn roll_below(draw: u32, chance: u32) -> bool {
    draw * (CHANCE_SCALE as int) < chance * 0x1_0000_0000
}

impl<'a> Damage<'a> {
    /// Raw power, times `1 + power` when a weapon strikes.
    pub open spec fn base_value(&self) -> int {
        match self.weapon {
            Some(w) => self.raw * (1 + w.power),
            None => self.raw as int,
        }
    }

    /// Whether the hit is critical under the roll `draw`.
    pub open spec fn crit_by(&self, draw: u32) -> bool {
        self.crit_override || (self.weapon matches Some(w) && roll_below(draw, w.crit_chance))
    }

    /// The value of the hit under the roll `draw`; a kept value wins.
    pub open spec fn value_for(&self, draw: u32) -> u64 {
        match self.calculated {
            Some(v) => v,
            None => (if self.crit_by(draw) {
                CRIT_MULTIPLIER * self.base_value()
            } else {
                self.base_value()
            }) as u64,
        }
    }

    /// This damage after evaluation under the roll `draw`.
    pub open spec fn evaluated(&self, draw: u32) -> Damage<'a> {
        Damage { calculated: Some(self.value_for(draw)), ..*self }
    }

    /// The evaluation depends on a roll: nothing is kept, a weapon strikes
    /// and no critical hit is forced.
    pub open spec fn needs_roll(&self) -> bool {
        self.calculated is None && self.weapon is Some && !self.crit_override
    }

    /// A hit of raw power `raw`, not yet evaluated.
    pub fn new(raw: u32, buff: u32, weapon: Option<&'a Weapon>, crit_override: bool) -> (r: Damage<
        'a,
    >)
        ensures
            r.raw == raw,
            r.buff == buff,
            r.weapon == weapon,
            r.crit_override == crit_override,
            r.calculated is None,
    {
        Damage { raw, buff, weapon, crit_override, calculated: None }
    }

    /// Evaluates the hit with the roll `draw`, or returns the kept value.
    pub fn evaluate_with_roll(&mut self, draw: u32) -> (r: u64)
        ensures
            r == old(self).value_for(draw),
            *final(self) == old(self).evaluated(draw),
    {
        match self.calculated {
            Some(v) => v,
            None => {
                let base: u64 = match self.weapon {
                    Some(w) => {
                        assert(self.raw * (1 + w.power) <= 0xffff_ffff * 0x1_0000) by (nonlinear_arith)
                            requires self.raw <= 0xffff_ffffu32, w.power <= 0xffffu16;
                        self.raw as u64 * (1 + w.power as u64)
                    },
                    None => self.raw as u64,
                };
                let crit = self.crit_override || match self.weapon {
                    Some(w) => (draw as u64) * CHANCE_SCALE < (w.crit_chance as u64) * 0x1_0000_0000,
                    None => false,
                };
                let v = if crit {
                    CRIT_MULTIPLIER * base
                } else {
                    base
                };
                self.calculated = Some(v);
                v
            },
        }
    }

    /// Evaluates the hit, rolling for a critical only when the result
    /// depends on it, or returns the kept value. Every later evaluation
    /// returns the same value.
    pub fn evaluate(&mut self) -> (r: Result<u64, GameError>)
        ensures
            exists|draw: u32|
                r == Ok::<u64, GameError>(#[trigger] old(self).value_for(draw)) && *final(self)
                    == old(self).evaluated(draw),
            !old(self).needs_roll() ==> r == Ok::<u64, GameError>(old(self).value_for(0)),
    {
        let draw: u32 = if self.calculated.is_none() && !self.crit_override && self.weapon.is_some() {
            rand::random::<u32>()
        } else {
            0
        };
        Ok(self.evaluate_with_roll(draw))
    }

    /// Stun that the hit inflicts: the weapon's, or none.
    pub open spec fn stun_spec(&self) -> u64 {
        match self.weapon {
            Some(w) => w.stun,
            None => 0,
        }
    }

    /// Stun that the hit inflicts, in microseconds.
    pub fn stun(&self) -> (r: u64)
        ensures
            r == self.stun_spec(),
    {
        match self.weapon {
            Some(w) => w.stun,
            None => 0,
        }
    }
}

/// Once evaluated, a damage value keeps its value: a second evaluation,
/// under any roll, returns the first result and changes nothing.
pub proof fn lemma_evaluate_idempotent(d: Damage, first: u32, second: u32)
    ensures
        d.evaluated(first).value_for(second) == d.value_for(first),
        d.evaluated(first).evaluated(second) == d.evaluated(first),
{
}

/// With a weapon whose crit chance is zero and no forced critical, no roll
/// gives a critical hit; with a chance of one, every roll does.
pub proof fn lemma_crit_bounds(d: Damage, draw: u32)
    requires
        d.calculated is None,
        d.weapon is Some,
    ensures
        !d.crit_override && d.weapon->0.crit_chance == 0 ==> d.value_for(draw) == d.base_value(),
        d.weapon->0.crit_chance >= CHANCE_SCALE ==> d.value_for(draw) == CRIT_MULTIPLIER
            * d.base_value(),
{
    assert(draw * (CHANCE_SCALE as int) < 0x1_0000_0000 * (CHANCE_SCALE as int)) by (nonlinear_arith)
        requires draw < 0x1_0000_0000;
    assert(d.weapon->0.crit_chance >= CHANCE_SCALE ==> d.weapon->0.crit_chance * 0x1_0000_0000
        >= 0x1_0000_0000 * (CHANCE_SCALE as int)) by (nonlinear_arith);
    let w = d.weapon->0;
    assert(d.raw * (1 + w.power) <= 0xffff_ffff * 0x1_0000) by (nonlinear_arith)
        requires d.raw <= 0xffff_ffffu32, w.power <= 0xffffu16;
}

/// Something that takes hits.
pub trait Damageable {
    /// Takes the hit `damage`, evaluating it.
    fn take_damage(&mut self, damage: Damage, effects: Vec<Effects>) -> (r: Nresult)
        ensures
            r is Ok,
    ;

    /// Takes `damage` health points, ignoring every effect and multiplier.
    fn take_damage_raw(&mut self, damage: u64) -> (r: Nresult)
        ensures
            r is Ok,
    ;
}

} // verus!
