//! Weapons: cooldown, the melee cone, and the attack on the horde.

use crate::enemies::{damaged_enemy, sorted_by_y, Enemy};
use crate::errors::Nresult;
use crate::geometry::{cone_contains, delta, in_cone, within, within_distance, Direction, Point};
use crate::proximity::proximity_band;
use crate::world::World;
use vstd::prelude::*;

verus! {

pub enum WeaponKind {
    /// A weapon that fires bullets; it does not hit by itself.
    Projectile { bullet: u32, speed: u32 },
    /// A swing that hits what lies within `range` of the wielder and
    /// inside the cone around the aim whose half-angle has cosine
    /// `half_angle_cos / COS_SCALE`.
    Melee { range: u64, half_angle_cos: i16 },
}

impl WeaponKind {
    pub open spec fn is_melee(&self) -> bool {
        self is Melee
    }

    /// A swing from `origin` aimed along `aim` hits a target at `target`.
    pub open spec fn hits(&self, origin: Point, target: Point, aim: Direction) -> bool {
        match self {
            WeaponKind::Melee { range, half_angle_cos } => within(target, origin, *range as int)
                && in_cone(delta(target, origin), aim, *half_angle_cos as int),
            WeaponKind::Projectile { .. } => false,
        }
    }

    /// Whether a swing from `origin` aimed along `aim` hits `target`: it
    /// lies within range, and its bearing is within the half-angle of the
    /// aim.
    pub fn collides(&self, origin: Point, target: Point, aim: Direction) -> (r: bool)
        requires
            origin.valid(),
            target.valid(),
        ensures
            r == self.hits(origin, target, aim),
    {
        match self {
            WeaponKind::Melee { range, half_angle_cos } => {
                within_distance(target, origin, *range) && cone_contains(
                    origin,
                    target,
                    aim,
                    *half_angle_cos,
                )
            },
            WeaponKind::Projectile { .. } => false,
        }
    }
}

pub struct Weapon {
    /// Damage of a melee hit; a hit evaluated through `Damage` is
    /// multiplied by `1 + power`.
    pub power: u16,
    /// Chance of a critical hit, in millionths.
    pub crit_chance: u32,
    /// Time between two attacks, in microseconds.
    pub cooldown: u64,
    /// Time left before the next attack, in microseconds.
    pub cooldown_counter: u64,
    pub knockback: u32,
    /// Stun inflicted by a hit, in microseconds.
    pub stun: u64,
    pub animation: u64,
    pub kind: WeaponKind,
}

/// The horde `s` after a swing of `w` from `origin` along `aim`: each
/// enemy hit loses `w.power` health.
pub open spec fn swing(s: Seq<Enemy>, origin: Point, aim: Direction, w: Weapon) -> Seq<Enemy> {
    Seq::new(
        s.len(),
        |i: int|
            if w.kind.hits(origin, s[i].loc, aim) {
                damaged_enemy(s[i], w.power as int)
            } else {
                s[i]
            },
    )
}

/// Cooldown left after `elapsed` more microseconds, stopping at zero.
pub open spec fn cooldown_after(counter: u64, elapsed: u64) -> u64 {
    if counter > elapsed {
        (counter - elapsed) as u64
    } else {
        0
    }
}

/// The cooldown left from `counter` after one update for each of the
/// elapsed times `dts`, in order.
pub open spec fn cooldown_over(counter: u64, dts: Seq<u64>) -> u64
    decreases dts.len(),
{
    if dts.len() == 0 {
        counter
    } else {
        cooldown_after(cooldown_over(counter, dts.drop_last()), dts.last())
    }
}

/// Sum of the elapsed times `dts`.
pub open spec fn total_time(dts: Seq<u64>) -> int
    decreases dts.len(),
{
    if dts.len() == 0 {
        0
    } else {
        total_time(dts.drop_last()) + dts.last()
    }
}

/// Running a cooldown down by several elapsed times leaves the counter
/// minus their sum, stopping at zero: it reaches exactly zero once the sum
/// reaches the counter, and stays positive (so no attack fires) before.
pub proof fn lemma_cooldown_runs_out(counter: u64, dts: Seq<u64>)
    ensures
        cooldown_over(counter, dts) == (if total_time(dts) >= counter {
            0
        } else {
            counter - total_time(dts)
        }),
        cooldown_over(counter, dts) == 0 <==> total_time(dts) >= counter,
    decreases dts.len(),
{
    if dts.len() > 0 {
        lemma_cooldown_runs_out(counter, dts.drop_last());
    }
}

impl Weapon {
    /// The weapon is ready: its cooldown has run out.
    pub open spec fn ready(&self) -> bool {
        self.cooldown_counter == 0
    }

    /// Attacks along `aim` if the weapon is ready. A melee weapon then
    /// hits every enemy of the (vertically sorted) horde that its cone
    /// covers, each losing `power` health, and its cooldown restarts.
    /// Otherwise nothing changes.
    ///
    /// A melee hit applies the raw power: like contact damage it bypasses
    /// the damage model's multiplier and critical roll.
    pub fn attack(&mut self, world: &mut World, aim: Direction) -> (r: Nresult)
        requires
            old(world).horde.wf(),
            sorted_by_y(old(world).horde.enemies@),
            old(world).player_pos.valid(),
        ensures
            r is Ok,
            !(old(self).ready() && old(self).kind.is_melee()) ==> *final(self) == *old(self) && *final(world) == *old(world),
            old(self).ready() && old(self).kind.is_melee() ==> {
                &&& *final(self) == (Weapon { cooldown_counter: old(self).cooldown, ..*old(self) })
                &&& final(world).player_pos == old(world).player_pos
                &&& final(world).map == old(world).map
                &&& final(world).size == old(world).size
                &&& final(world).horde.enemies@ == swing(
                    old(world).horde.enemies@,
                    old(world).player_pos,
                    aim,
                    *old(self),
                )
            },
            final(world).horde.enemies@.len() == old(world).horde.enemies@.len(),
            forall|i: int|
                0 <= i < old(world).horde.enemies@.len() ==> (#[trigger] final(world).horde.enemies@[i]).loc == old(world).horde.enemies@[i].loc,
    {
        let range = match self.kind {
            WeaponKind::Melee { range, .. } => range,
            WeaponKind::Projectile { .. } => {
                return Ok(());
            },
        };
        if self.cooldown_counter > 0 {
            return Ok(());
        }
        self.cooldown_counter = self.cooldown;
        let origin = world.player_pos;
        let (lower, upper) = proximity_band(&world.horde.enemies, origin, range);
        let ghost before = world.horde.enemies@;
        let ghost target = swing(before, origin, aim, *self);
        let mut i: usize = lower;
        while i < upper
            invariant
                lower <= i <= upper <= before.len(),
                world.horde.enemies@.len() == before.len(),
                world.player_pos == origin,
                world.map == old(world).map,
                world.size == old(world).size,
                origin.valid(),
                self.kind.is_melee(),
                self.kind->Melee_range == range,
                target == swing(before, origin, aim, *self),
                forall|j: int| 0 <= j < before.len() ==> (#[trigger] before[j]).loc.valid(),
                forall|j: int|
                    0 <= j < before.len() && !(lower <= j < upper) ==> !within(
                        #[trigger] before[j].loc,
                        origin,
                        range as int,
                    ),
                forall|j: int| lower <= j < i ==> #[trigger] world.horde.enemies@[j] == target[j],
                forall|j: int|
                    0 <= j < before.len() && !(lower <= j < i) ==> #[trigger] world.horde.enemies@[j]
                        == before[j],
            decreases upper - i,
        {
            let loc = world.horde.enemies[i].loc;
            assert(before[i as int].loc.valid());
            if self.kind.collides(origin, loc, aim) {
                world.horde.apply_damage_to(i, self.power as u64);
            }
            i = i + 1;
        }
        assert(world.horde.enemies@ =~= target);
        Ok(())
    }

    /// Lets `elapsed` microseconds of cooldown run out, stopping at zero.
    pub fn adjust_cooldown(&mut self, elapsed: u64)
        ensures
            *final(self) == (Weapon {
                cooldown_counter: cooldown_after(old(self).cooldown_counter, elapsed),
                ..*old(self)
            }),
    {
        self.cooldown_counter = self.cooldown_counter.saturating_sub(elapsed);
    }
}

} // verus!
