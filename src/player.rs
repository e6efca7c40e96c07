//! The player.

use crate::damage::{Damage, Damageable, Effects};
use crate::enemies::{lower_health, sub_health};
use crate::errors::Nresult;
use crate::weapons::{Weapon, WeaponKind};
use vstd::prelude::*;

verus! {

pub struct Player {
    pub max_health: i64,
    pub health: i64,
    pub attack: u32,
    pub defense: u32,
    /// Movement speed, in world units per second.
    pub speed: u32,
    pub weapon: Weapon,
    /// Remaining stun, in microseconds; a stunned player takes no hits.
    pub stun: u64,
}

impl Player {
    /// A player at full health `health`.
    pub fn new(health: i64, attack: u32, defense: u32, speed: u32, weapon: Weapon, stun: u64) -> (r:
        Player)
        ensures
            r == (Player { max_health: health, health, attack, defense, speed, weapon, stun }),
    {
        Player { max_health: health, health, attack, defense, speed, weapon, stun }
    }

    /// The player is dead: health is not positive.
    pub open spec fn is_dead(&self) -> bool {
        self.health <= 0
    }
}

/// The starting player: 100 health, 300 pixels per second, and a sword
/// of power 10 with a 60 degree cone of 250 pixels that swings every
/// 0.3 seconds.
pub open spec fn default_player() -> Player {
    Player {
        max_health: 100,
        health: 100,
        attack: 5,
        defense: 5,
        speed: 300_000,
        weapon: Weapon {
            power: 10,
            crit_chance: 100_000,
            cooldown: 300_000,
            cooldown_counter: 0,
            knockback: 0,
            stun: 0,
            animation: 0,
            kind: WeaponKind::Melee { range: 250_000, half_angle_cos: 8660 },
        },
        stun: 0,
    }
}

impl Default for Player {
    fn default() -> (r: Player)
        ensures
            r == default_player(),
    {
        Player {
            max_health: 100,
            health: 100,
            attack: 5,
            defense: 5,
            speed: 300_000,
            weapon: Weapon {
                power: 10,
                crit_chance: 100_000,
                cooldown: 300_000,
                cooldown_counter: 0,
                knockback: 0,
                stun: 0,
                animation: 0,
                kind: WeaponKind::Melee { range: 250_000, half_angle_cos: 8660 },
            },
            stun: 0,
        }
    }
}

impl Damageable for Player {
    /// A player who is not stunned loses the hit's value and is then
    /// stunned for the hit's stun; a stunned player is not hurt.
    fn take_damage(&mut self, damage: Damage, effects: Vec<Effects>) -> (r: Nresult)
        ensures
            old(self).stun > 0 ==> *final(self) == *old(self),
            old(self).stun == 0 ==> exists|draw: u32|
                *final(self) == (Player {
                    health: sub_health(old(self).health as int, #[trigger] damage.value_for(draw) as int) as i64,
                    stun: damage.stun_spec(),
                    ..*old(self)
                }),
    {
        if self.stun == 0 {
            let mut damage = damage;
            let stun = damage.stun();
            let amount = damage.evaluate();
            match amount {
                Ok(v) => {
                    self.health = lower_health(self.health, v);
                    self.stun = stun;
                    Ok(())
                },
                Err(e) => Err(e),
            }
        } else {
            Ok(())
        }
    }

    fn take_damage_raw(&mut self, damage: u64) -> (r: Nresult)
        ensures
            *final(self) == (Player {
                health: sub_health(old(self).health as int, damage as int) as i64,
                ..*old(self)
            }),
    {
        self.health = lower_health(self.health, damage);
        Ok(())
    }
}

} // verus!
