//! What any weapon tells about itself.

use vstd::prelude::*;

verus! {

/// The figures of a weapon that the damage model reads.
pub trait Weapon {
    /// The weapon fires bullets rather than swinging.
    fn is_projectile(&self) -> bool;

    /// Power of a hit.
    fn power(&self) -> u16;

    /// Chance of a critical hit, in millionths.
    fn crit_chance(&self) -> u32;
}

impl Weapon for crate::weapons::Weapon {
    fn is_projectile(&self) -> (r: bool)
        ensures
            r == !self.kind.is_melee(),
    {
        match self.kind {
            crate::weapons::WeaponKind::Projectile { .. } => true,
            crate::weapons::WeaponKind::Melee { .. } => false,
        }
    }

    fn power(&self) -> (r: u16)
        ensures
            r == self.power,
    {
        self.power
    }

    fn crit_chance(&self) -> (r: u32)
        ensures
            r == self.crit_chance,
    {
        self.crit_chance
    }
}

} // verus!
