//! Enemy kinds, enemies, and the horde that holds the live ones.

use crate::damage::{Damage, Damageable, Effects};
use crate::errors::{GameError, Nresult};
use crate::geometry::{
    at_least_distance, dist2, distance_squared, floor_sqrt, scaled_offset, step_toward, travel,
    Point, MAX_STEP, MICROS_PER_SECOND, WORLD_MAX,
};
use rayon::slice::ParallelSliceMut;
use vstd::prelude::*;

verus! {

/// Static balance values of one enemy kind.
#[derive(Clone, Copy, Debug, PartialEq, Eq, Structural)]
pub struct EnemyKind {
    /// Frames of the walking animation.
    pub frames: u32,
    /// Time between two attacks, in microseconds.
    pub cooldown: u64,
    /// Damage dealt to the player on contact.
    pub attack: u32,
    /// Health a fresh enemy starts with.
    pub health: u32,
    /// Movement speed, in world units per second.
    pub speed: u32,
    pub stunnable: bool,
}

/// The table of enemy kinds, indexed by kind id. It is filled once and
/// read thereafter.
#[derive(Clone, Debug)]
pub struct EnemyMap {
    pub map: Vec<EnemyKind>,
}

impl EnemyMap {
    /// The stats registered under `id`, if any.
    pub open spec fn lookup(&self, id: u32) -> Option<EnemyKind> {
        if (id as int) < self.map@.len() {
            Some(self.map@[id as int])
        } else {
            None
        }
    }

    pub open spec fn knows(&self, id: u32) -> bool {
        (id as int) < self.map@.len()
    }

    /// A table holding the given kinds, kind `i` at index `i`.
    pub fn new(kinds: Vec<EnemyKind>) -> (r: EnemyMap)
        ensures
            r.map@ == kinds@,
    {
        EnemyMap { map: kinds }
    }
}

/// Stats of enemy kind `id`, or `None` when `kinds` does not register it.
pub fn get_enemy_info(kinds: &EnemyMap, id: u32) -> (r: Option<EnemyKind>)
    ensures
        r == kinds.lookup(id),
{
    if (id as usize) < kinds.map.len() {
        Some(kinds.map[id as usize])
    } else {
        None
    }
}

/// Stats of the two standard kinds, given their animation frame counts.
pub open spec fn standard_kinds(frames0: u32, frames1: u32) -> Seq<EnemyKind> {
    seq![
        EnemyKind { frames: frames0, cooldown: 500_000, attack: 1, health: 20, speed: 50_000, stunnable: false },
        EnemyKind { frames: frames1, cooldown: 1_000_000, attack: 2, health: 30, speed: 40_000, stunnable: false },
    ]
}

impl EnemyMap {
    /// The standard table: kind 0 walks at 50 pixels per second, has 20
    /// health and hits for 1; kind 1 walks at 40, has 30 health and hits
    /// for 2. `frame_counts[i]` is the number of animation frames found for
    /// kind `i` (none when missing).
    pub fn init(frame_counts: &Vec<u32>) -> (r: EnemyMap)
        ensures
            r.map@ == standard_kinds(
                if frame_counts@.len() > 0 { frame_counts@[0] } else { 0 },
                if frame_counts@.len() > 1 { frame_counts@[1] } else { 0 },
            ),
    {
        let f0: u32 = if frame_counts.len() > 0 { frame_counts[0] } else { 0 };
        let f1: u32 = if frame_counts.len() > 1 { frame_counts[1] } else { 0 };
        let mut map: Vec<EnemyKind> = Vec::new();
        map.push(
            EnemyKind { frames: f0, cooldown: 500_000, attack: 1, health: 20, speed: 50_000, stunnable: false },
        );
        map.push(
            EnemyKind { frames: f1, cooldown: 1_000_000, attack: 2, health: 30, speed: 40_000, stunnable: false },
        );
        assert(map@ =~= standard_kinds(f0, f1));
        EnemyMap { map }
    }
}

/// One live enemy. It has no identity beyond its place in the horde.
#[derive(Clone, Copy, Debug, PartialEq, Eq, Structural)]
pub struct Enemy {
    /// Kind id, an index into the `EnemyMap`.
    pub id: u32,
    pub loc: Point,
    pub velocity: Point,
    /// Animation phase, in microseconds.
    pub animation: u64,
    pub health: i64,
    /// Remaining stun, in microseconds.
    pub stun_timer: u64,
}

/// Health after losing `amount` points; it bottoms out at the smallest
/// value that the type holds.
pub open spec fn sub_health(h: int, amount: int) -> int {
    if h - amount < i64::MIN {
        i64::MIN as int
    } else {
        h - amount
    }
}

/// `h` minus `amount`, as `sub_health` states.
pub fn lower_health(h: i64, amount: u64) -> (r: i64)
    ensures
        r == sub_health(h as int, amount as int),
{
    match h.checked_sub_unsigned(amount) {
        Some(v) => v,
        None => i64::MIN,
    }
}

/// A fresh enemy of the given kind standing at `loc`.
pub open spec fn fresh_enemy(id: u32, loc: Point, kind: EnemyKind) -> Enemy {
    Enemy {
        id,
        loc,
        velocity: Point { x: 0, y: 0 },
        animation: 0,
        health: kind.health as i64,
        stun_timer: 0,
    }
}

/// `a` comes no later than `b` in the store's order: by vertical
/// coordinate, then by horizontal coordinate.
pub open spec fn position_le(a: Enemy, b: Enemy) -> bool {
    a.loc.y < b.loc.y || (a.loc.y == b.loc.y && a.loc.x <= b.loc.x)
}

pub open spec fn sorted_by_position(s: Seq<Enemy>) -> bool {
    forall|i: int, j: int| 0 <= i < j < s.len() ==> #[trigger] position_le(s[i], s[j])
}

pub open spec fn sorted_by_y(s: Seq<Enemy>) -> bool {
    forall|i: int, j: int| 0 <= i < j < s.len() ==> s[i].loc.y <= s[j].loc.y
}

/// The store's order sorts by vertical coordinate.
pub proof fn lemma_sorted_by_position_sorts_y(s: Seq<Enemy>)
    requires
        sorted_by_position(s),
    ensures
        sorted_by_y(s),
{
    assert forall|i: int, j: int| 0 <= i < j < s.len() implies s[i].loc.y <= s[j].loc.y by {
        assert(position_le(s[i], s[j]));
    }
}

/// Every enemy stands inside the simulated plane.
pub open spec fn all_valid(s: Seq<Enemy>) -> bool {
    forall|i: int| 0 <= i < s.len() ==> (#[trigger] s[i]).loc.valid()
}

proof fn lemma_permutation_keeps_valid(a: Seq<Enemy>, b: Seq<Enemy>)
    requires
        a.to_multiset() == b.to_multiset(),
        all_valid(a),
    ensures
        all_valid(b),
{
    a.to_multiset_ensures();
    b.to_multiset_ensures();
    assert forall|i: int| 0 <= i < b.len() implies (#[trigger] b[i]).loc.valid() by {
        assert(b.contains(b[i]));
        assert(b.to_multiset().count(b[i]) > 0);
        assert(a.to_multiset().count(b[i]) > 0);
        assert(a.contains(b[i]));
    }
}

proof fn lemma_filter_keeps_valid(s: Seq<Enemy>, pred: spec_fn(Enemy) -> bool)
    requires
        all_valid(s),
    ensures
        all_valid(s.filter(pred)),
{
    let f = s.filter(pred);
    assert forall|i: int| 0 <= i < f.len() implies (#[trigger] f[i]).loc.valid() by {
        assert(f.contains(f[i]));
        s.lemma_filter_contains_rev(pred, f[i]);
    }
}

/// Reordering keeps every enemy's kind registered.
pub proof fn lemma_permutation_keeps_known(a: Seq<Enemy>, b: Seq<Enemy>, kinds: EnemyMap)
    requires
        a.to_multiset() == b.to_multiset(),
        all_known(a, kinds),
    ensures
        all_known(b, kinds),
{
    a.to_multiset_ensures();
    b.to_multiset_ensures();
    assert forall|i: int| 0 <= i < b.len() implies kinds.knows(#[trigger] b[i].id) by {
        assert(b.contains(b[i]));
        assert(b.to_multiset().count(b[i]) > 0);
        assert(a.to_multiset().count(b[i]) > 0);
        assert(a.contains(b[i]));
        let k = choose|k: int| 0 <= k < a.len() && a[k] == b[i];
        assert(kinds.knows(a[k].id));
    }
}

/// The enemy survives a cull of the dead: its health is positive.
pub open spec fn is_alive(e: Enemy) -> bool {
    e.health > 0
}

/// The enemies of `s` with positive health, in their order.
pub open spec fn living(s: Seq<Enemy>) -> Seq<Enemy> {
    s.filter(|e: Enemy| is_alive(e))
}

/// Positions in `s` of its enemies with positive health, ascending.
pub open spec fn living_indices(s: Seq<Enemy>) -> Seq<int>
    decreases s.len(),
{
    if s.len() == 0 {
        Seq::empty()
    } else {
        let p = living_indices(s.drop_last());
        if is_alive(s.last()) {
            p.push(s.len() - 1)
        } else {
            p
        }
    }
}

/// `f` consists of the enemies of `s` at the ascending positions `idx`.
pub open spec fn picked_in_order(s: Seq<Enemy>, f: Seq<Enemy>, idx: Seq<int>) -> bool {
    &&& idx.len() == f.len()
    &&& forall|k: int| 0 <= k < idx.len() ==> 0 <= #[trigger] idx[k] < s.len() && f[k] == s[idx[k]]
    &&& forall|k: int, l: int| 0 <= k < l < idx.len() ==> #[trigger] idx[k] < #[trigger] idx[l]
}

proof fn lemma_living_in_order(s: Seq<Enemy>)
    ensures
        picked_in_order(s, living(s), living_indices(s)),
    decreases s.len(),
{
    reveal(Seq::filter);
    if s.len() > 0 {
        let p = s.drop_last();
        lemma_living_in_order(p);
        assert(living(s) == (if is_alive(s.last()) {
            living(p).push(s.last())
        } else {
            living(p)
        }));
        let idx = living_indices(s);
        let pidx = living_indices(p);
        assert forall|k: int| 0 <= k < pidx.len() implies pidx[k] < p.len() by {}
    }
}

/// Culling the dead leaves only enemies with positive health, keeps every
/// enemy that had positive health, and keeps the survivors in their order.
pub proof fn lemma_prune_correct(s: Seq<Enemy>)
    ensures
        forall|k: int| 0 <= k < living(s).len() ==> is_alive(#[trigger] living(s)[k]),
        forall|i: int| 0 <= i < s.len() && is_alive(#[trigger] s[i]) ==> living(s).contains(s[i]),
        picked_in_order(s, living(s), living_indices(s)),
{
    assert forall|k: int| 0 <= k < living(s).len() implies is_alive(#[trigger] living(s)[k]) by {
        s.lemma_filter_pred(|e: Enemy| is_alive(e), k);
    }
    assert forall|i: int| 0 <= i < s.len() && is_alive(#[trigger] s[i]) implies living(s).contains(
        s[i],
    ) by {
        s.lemma_filter_contains(|e: Enemy| is_alive(e), i);
    }
    lemma_living_in_order(s);
}

/// The enemy stands at distance `distance` or more from `loc`.
pub open spec fn stands_clear(e: Enemy, loc: Point, distance: int) -> bool {
    dist2(e.loc, loc) >= distance * distance
}

/// The enemies of `s` at distance `distance` or more from `loc`, in their
/// order.
pub open spec fn clear_of(s: Seq<Enemy>, loc: Point, distance: int) -> Seq<Enemy> {
    s.filter(|e: Enemy| stands_clear(e, loc, distance))
}

/// Relies on rayon's `par_sort_unstable_by_key`: it permutes the slice so
/// that the keys, here `(y, x)` in tuple order, ascend.
#[verifier::external_body]
fn par_sort_by_position(v: &mut Vec<Enemy>)
    ensures
        final(v)@.to_multiset() == old(v)@.to_multiset(),
        sorted_by_position(final(v)@),
{
    v.par_sort_unstable_by_key(|e| (e.loc.y, e.loc.x));
}

/// A coordinate difference whose square is at most `n` is at most the
/// rounded-down root `r` of `n` in magnitude.
proof fn lemma_within_root(a: int, r: int, n: int)
    requires
        r >= 0,
        a * a <= n < (r + 1) * (r + 1),
    ensures
        -r <= a <= r,
{
    if a > r {
        assert(a * a >= (r + 1) * (r + 1)) by (nonlinear_arith)
            requires a >= r + 1, r >= 0;
    } else if a < -r {
        assert(a * a >= (r + 1) * (r + 1)) by (nonlinear_arith)
            requires -a >= r + 1, r >= 0;
    }
}

/// Most draws made to place a spawned enemy before falling back to the
/// farthest corner of the world.
pub const SPAWN_ATTEMPTS: u32 = 64;

/// A world size: both extents lie between zero and `WORLD_MAX`.
pub open spec fn valid_size(size: Point) -> bool {
    0 <= size.x <= WORLD_MAX && 0 <= size.y <= WORLD_MAX
}

/// Every kind of `kinds` covers at most `MAX_STEP` units in `elapsed`
/// microseconds.
pub open spec fn steps_fit(kinds: EnemyMap, elapsed: u64) -> bool {
    forall|i: int|
        0 <= i < kinds.map@.len() ==> travel(#[trigger] kinds.map@[i].speed as int, elapsed as int)
            <= MAX_STEP
}

/// `p` lies in the world `[0, size.x] x [0, size.y]`.
pub open spec fn in_world(p: Point, size: Point) -> bool {
    0 <= p.x <= size.x && 0 <= p.y <= size.y
}

/// Coordinate picked by the draw `draw` in `[0, extent)`, or zero for an
/// empty extent.
pub open spec fn coord_of_draw(draw: u64, extent: i64) -> i64 {
    if extent <= 0 {
        0
    } else {
        (draw % (extent as u64)) as i64
    }
}

/// The position that a pair of draws picks in the world.
pub open spec fn position_of_draws(dx: u64, dy: u64, size: Point) -> Point {
    Point { x: coord_of_draw(dx, size.x), y: coord_of_draw(dy, size.y) }
}

/// Whichever end of `[0, extent]` lies farther from `c`.
pub open spec fn far_end(c: i64, extent: i64) -> i64 {
    if c - 0 >= extent - c {
        0
    } else {
        extent
    }
}

/// The corner of the world farthest from `p`.
pub open spec fn farthest_corner(p: Point, size: Point) -> Point {
    Point { x: far_end(p.x, size.x), y: far_end(p.y, size.y) }
}

/// The position picked by a pair of draws.
pub fn candidate_position(draw_x: u64, draw_y: u64, map_size: Point) -> (r: Point)
    requires
        valid_size(map_size),
    ensures
        r == position_of_draws(draw_x, draw_y, map_size),
        in_world(r, map_size),
{
    let x: i64 = if map_size.x <= 0 { 0 } else { (draw_x % (map_size.x as u64)) as i64 };
    let y: i64 = if map_size.y <= 0 { 0 } else { (draw_y % (map_size.y as u64)) as i64 };
    Point { x, y }
}

/// `e` after moving for `elapsed` microseconds toward `target` at the speed
/// of its kind.
pub open spec fn moved_enemy(e: Enemy, target: Point, elapsed: u64, kinds: EnemyMap) -> Enemy {
    Enemy {
        loc: step_toward(
            e.loc,
            target,
            travel(kinds.map@[e.id as int].speed as int, elapsed as int),
        ),
        ..e
    }
}

/// Every enemy of `s` after moving for `elapsed` microseconds toward
/// `target`.
pub open spec fn moved_horde(s: Seq<Enemy>, target: Point, elapsed: u64, kinds: EnemyMap) -> Seq<
    Enemy,
> {
    Seq::new(s.len(), |i: int| moved_enemy(s[i], target, elapsed, kinds))
}

/// `e` with its animation phase advanced by `elapsed`, modulo `period`.
pub open spec fn animated_enemy(e: Enemy, elapsed: u64, period: u64) -> Enemy {
    Enemy { animation: ((e.animation + elapsed) % (period as int)) as u64, ..e }
}

/// `e` after losing `amount` health points.
pub open spec fn damaged_enemy(e: Enemy, amount: int) -> Enemy {
    Enemy { health: sub_health(e.health as int, amount) as i64, ..e }
}

/// Every enemy of `s` has a kind that `kinds` registers.
pub open spec fn all_known(s: Seq<Enemy>, kinds: EnemyMap) -> bool {
    forall|i: int| 0 <= i < s.len() ==> kinds.knows(#[trigger] s[i].id)
}

impl EnemyMap {
    /// Whether every kind covers at most `MAX_STEP` units in `elapsed`
    /// microseconds.
    pub fn fits_step(&self, elapsed: u64) -> (r: bool)
        ensures
            r == steps_fit(*self, elapsed),
    {
        let mut i: usize = 0;
        while i < self.map.len()
            invariant
                i <= self.map@.len(),
                forall|j: int|
                    0 <= j < i ==> travel(#[trigger] self.map@[j].speed as int, elapsed as int)
                        <= MAX_STEP,
            decreases self.map@.len() - i,
        {
            let speed = self.map[i].speed;
            assert(speed * elapsed <= 0xffff_ffff * 0xffff_ffff_ffff_ffff) by (nonlinear_arith)
                requires speed <= 0xffff_ffffu32, elapsed <= 0xffff_ffff_ffff_ffffu64;
            if speed as u128 * elapsed as u128 / MICROS_PER_SECOND as u128 > MAX_STEP as u128 {
                return false;
            }
            i = i + 1;
        }
        true
    }
}

/// Checks that every enemy's kind is registered; otherwise names the kind
/// of one that is not.
pub fn check_kinds(enemies: &Vec<Enemy>, kinds: &EnemyMap) -> (r: Nresult)
    ensures
        r is Ok <==> all_known(enemies@, *kinds),
        r is Err ==> exists|i: int|
            0 <= i < enemies@.len() && !kinds.knows(enemies@[i].id) && r == Err::<(), GameError>(
                GameError::UnknownEntityKind(enemies@[i].id),
            ),
{
    let mut i: usize = 0;
    while i < enemies.len()
        invariant
            i <= enemies@.len(),
            forall|j: int| 0 <= j < i ==> kinds.knows(#[trigger] enemies@[j].id),
        decreases enemies@.len() - i,
    {
        let id = enemies[i].id;
        if (id as usize) >= kinds.map.len() {
            return Err(GameError::UnknownEntityKind(id));
        }
        i = i + 1;
    }
    Ok(())
}

impl Damageable for Enemy {
    /// The enemy loses the hit's value; its health may become negative.
    fn take_damage(&mut self, damage: Damage, effects: Vec<Effects>) -> (r: Nresult)
        ensures
            exists|draw: u32|
                *final(self) == damaged_enemy(*old(self), #[trigger] damage.value_for(draw) as int),
    {
        let mut damage = damage;
        match damage.evaluate() {
            Ok(v) => self.take_damage_raw(v),
            Err(e) => Err(e),
        }
    }

    fn take_damage_raw(&mut self, damage: u64) -> (r: Nresult)
        ensures
            *final(self) == damaged_enemy(*old(self), damage as int),
    {
        self.health = lower_health(self.health, damage);
        Ok(())
    }
}

/// The live enemies.
pub struct HordeEnemies {
    pub enemies: Vec<Enemy>,
}

impl HordeEnemies {
    /// Every enemy stands inside the simulated plane.
    pub open spec fn wf(&self) -> bool {
        all_valid(self.enemies@)
    }

    /// An empty horde.
    pub fn new() -> (r: HordeEnemies)
        ensures
            r.enemies@ == Seq::<Enemy>::empty(),
            r.wf(),
    {
        HordeEnemies { enemies: Vec::new() }
    }

    /// The enemy at `idx`, if there is one.
    pub fn get_ref(&self, idx: usize) -> (r: Option<&Enemy>)
        ensures
            r.is_some() == (idx < self.enemies@.len()),
            r.is_some() ==> *r.unwrap() == self.enemies@[idx as int],
    {
        if idx < self.enemies.len() {
            Some(&self.enemies[idx])
        } else {
            None
        }
    }

    /// The enemy at `idx`, for changing in place, if there is one.
    pub fn get_ref_mut(&mut self, idx: usize) -> (r: Option<&mut Enemy>)
        ensures
            r.is_some() == (idx < old(self).enemies@.len()),
            match r {
                Some(e) => *e == old(self).enemies@[idx as int] && final(self).enemies@ == old(
                    self,
                ).enemies@.update(idx as int, *final(e)),
                None => *final(self) == *old(self),
            },
    {
        if idx < self.enemies.len() {
            Some(&mut self.enemies[idx])
        } else {
            None
        }
    }

    /// Orders the horde by vertical coordinate, ties by horizontal one,
    /// keeping each enemy whole.
    pub fn sort(&mut self)
        ensures
            final(self).enemies@.to_multiset() == old(self).enemies@.to_multiset(),
            final(self).enemies@.len() == old(self).enemies@.len(),
            sorted_by_position(final(self).enemies@),
            sorted_by_y(final(self).enemies@),
            old(self).wf() ==> final(self).wf(),
    {
        par_sort_by_position(&mut self.enemies);
        proof {
            self.enemies@.to_multiset_ensures();
            old(self).enemies@.to_multiset_ensures();
            lemma_sorted_by_position_sorts_y(self.enemies@);
            if old(self).wf() {
                lemma_permutation_keeps_valid(old(self).enemies@, self.enemies@);
            }
        }
    }

    /// Orders the horde by vertical coordinate, keeping each enemy whole.
    pub fn sort_y(&mut self)
        ensures
            final(self).enemies@.to_multiset() == old(self).enemies@.to_multiset(),
            final(self).enemies@.len() == old(self).enemies@.len(),
            sorted_by_y(final(self).enemies@),
            old(self).wf() ==> final(self).wf(),
    {
        self.sort();
    }

    /// Appends a fresh enemy of kind `id` at `loc`. Fails, leaving the
    /// horde as it was, when `kinds` does not register `id`.
    pub fn append(&mut self, id: u32, loc: Point, kinds: &EnemyMap) -> (r: Nresult)
        ensures
            r is Ok <==> kinds.knows(id),
            r is Err ==> r == Err::<(), GameError>(GameError::UnknownEntityKind(id))
                && final(self).enemies@ == old(self).enemies@,
            r is Ok ==> final(self).enemies@ == old(self).enemies@.push(
                fresh_enemy(id, loc, kinds.map@[id as int]),
            ),
            old(self).wf() && loc.valid() ==> final(self).wf(),
    {
        match get_enemy_info(kinds, id) {
            Some(info) => {
                self.enemies.push(
                    Enemy {
                        id,
                        loc,
                        velocity: Point { x: 0, y: 0 },
                        animation: 0,
                        health: info.health as i64,
                        stun_timer: 0,
                    },
                );
                Ok(())
            },
            None => Err(GameError::UnknownEntityKind(id)),
        }
    }

    /// Appends a fresh enemy of kind `id` at a random position of the world
    /// `[0, map_size.x) x [0, map_size.y)` at distance `min_dist` or more
    /// from `player`. Draws that land closer are redrawn, at most
    /// `SPAWN_ATTEMPTS` times in all; after that the enemy is placed on the
    /// corner of the world farthest from `player`. Fails, leaving the horde
    /// as it was, when `kinds` does not register `id`.
    pub fn spawn_around(
        &mut self,
        player: Point,
        map_size: Point,
        min_dist: u64,
        id: u32,
        kinds: &EnemyMap,
    ) -> (r: Nresult)
        requires
            player.valid(),
            valid_size(map_size),
        ensures
            r is Ok <==> kinds.knows(id),
            r is Err ==> r == Err::<(), GameError>(GameError::UnknownEntityKind(id))
                && final(self).enemies@ == old(self).enemies@,
            r is Ok ==> {
                let s = final(self).enemies@;
                let e = s.last();
                &&& s.len() == old(self).enemies@.len() + 1
                &&& s.drop_last() == old(self).enemies@
                &&& e == fresh_enemy(id, e.loc, kinds.map@[id as int])
                &&& in_world(e.loc, map_size)
                &&& (dist2(e.loc, player) >= min_dist * min_dist || e.loc == farthest_corner(
                    player,
                    map_size,
                ))
            },
            old(self).wf() ==> final(self).wf(),
    {
        if get_enemy_info(kinds, id).is_none() {
            return Err(GameError::UnknownEntityKind(id));
        }
        let mut attempt: u32 = 0;
        let mut chosen: Option<Point> = None;
        while attempt < SPAWN_ATTEMPTS
            invariant_except_break
                chosen is None,
            invariant
                valid_size(map_size),
                player.valid(),
            ensures
                chosen matches Some(p) ==> in_world(p, map_size) && dist2(p, player) >= min_dist
                    * min_dist,
            decreases SPAWN_ATTEMPTS - attempt,
        {
            let p = candidate_position(rand::random::<u64>(), rand::random::<u64>(), map_size);
            if at_least_distance(p, player, min_dist) {
                chosen = Some(p);
                break;
            }
            attempt = attempt + 1;
        }
        let loc = match chosen {
            Some(p) => p,
            None => {
                let x: i64 = if player.x >= map_size.x - player.x { 0 } else { map_size.x };
                let y: i64 = if player.y >= map_size.y - player.y { 0 } else { map_size.y };
                Point { x, y }
            },
        };
        let r = self.append(id, loc, kinds);
        proof {
            assert(self.enemies@.drop_last() =~= old(self).enemies@);
        }
        r
    }

    /// Moves `initial` toward `target` by the distance covered at `speed`
    /// units per second during `time` microseconds, passing the target if
    /// the step is longer than the way.
    pub fn move_pt_towards(initial: Point, target: Point, speed: u32, time: u64) -> (r: Point)
        requires
            initial.valid(),
            target.valid_target(),
            travel(speed as int, time as int) <= MAX_STEP,
        ensures
            r == step_toward(initial, target, travel(speed as int, time as int)),
            r.valid(),
    {
        let n2 = distance_squared(target, initial);
        let len = floor_sqrt(n2);
        if len == 0 {
            return initial;
        }
        assert(speed * time <= 0xffff_ffff * 0xffff_ffff_ffff_ffff) by (nonlinear_arith)
            requires speed <= 0xffff_ffffu32, time <= 0xffff_ffff_ffff_ffffu64;
        let step: u64 = (speed as u128 * time as u128 / MICROS_PER_SECOND as u128) as u64;
        let dx: i64 = target.x - initial.x;
        let dy: i64 = target.y - initial.y;
        proof {
            assert(dx * dx <= n2 && dy * dy <= n2) by (nonlinear_arith)
                requires n2 == dx * dx + dy * dy;
            lemma_within_root(dx as int, len as int, n2 as int);
            lemma_within_root(dy as int, len as int, n2 as int);
        }
        let ox = scaled_offset(dx, step, len);
        let oy = scaled_offset(dy, step, len);
        Point { x: initial.x + ox, y: initial.y + oy }
    }

    /// Moves every enemy toward `player` by the distance its kind's speed
    /// covers in `elapsed` microseconds. Fails, moving nobody, when some
    /// enemy's kind is not registered.
    pub fn move_all_enemies_towards(&mut self, player: Point, elapsed: u64, kinds: &EnemyMap) -> (r:
        Nresult)
        requires
            old(self).wf(),
            player.valid_target(),
            steps_fit(*kinds, elapsed),
        ensures
            r is Ok <==> all_known(old(self).enemies@, *kinds),
            r is Err ==> final(self).enemies@ == old(self).enemies@ && exists|i: int|
                0 <= i < old(self).enemies@.len() && !kinds.knows(old(self).enemies@[i].id) && r
                    == Err::<(), GameError>(GameError::UnknownEntityKind(old(self).enemies@[i].id)),
            r is Ok ==> final(self).enemies@ == moved_horde(old(self).enemies@, player, elapsed, *kinds),
            final(self).wf(),
    {
        let checked = check_kinds(&self.enemies, kinds);
        if checked.is_err() {
            return checked;
        }
        let mut i: usize = 0;
        while i < self.enemies.len()
            invariant
                i <= self.enemies@.len() == old(self).enemies@.len(),
                all_known(old(self).enemies@, *kinds),
                all_valid(old(self).enemies@),
                player.valid_target(),
                steps_fit(*kinds, elapsed),
                forall|j: int|
                    0 <= j < i ==> #[trigger] self.enemies@[j] == moved_enemy(
                        old(self).enemies@[j],
                        player,
                        elapsed,
                        *kinds,
                    ),
                forall|j: int| i <= j < self.enemies@.len() ==> #[trigger] self.enemies@[j] == old(self).enemies@[j],
                all_valid(self.enemies@),
            decreases self.enemies@.len() - i,
        {
            let mut e = self.enemies[i];
            assert(kinds.knows(old(self).enemies@[i as int].id));
            assert(old(self).enemies@[i as int].loc.valid());
            let speed = kinds.map[e.id as usize].speed;
            assert(travel(kinds.map@[e.id as int].speed as int, elapsed as int) <= MAX_STEP);
            e.loc = Self::move_pt_towards(e.loc, player, speed, elapsed);
            self.enemies.set(i, e);
            i = i + 1;
        }
        assert(self.enemies@ =~= moved_horde(old(self).enemies@, player, elapsed, *kinds));
        Ok(())
    }

    /// Advances every enemy's animation phase by `elapsed`, wrapping
    /// modulo `period`.
    pub fn update_anim_frames(&mut self, elapsed: u64, period: u64)
        requires
            period > 0,
        ensures
            final(self).enemies@.len() == old(self).enemies@.len(),
            forall|i: int|
                0 <= i < old(self).enemies@.len() ==> #[trigger] final(self).enemies@[i]
                    == animated_enemy(old(self).enemies@[i], elapsed, period),
    {
        let mut i: usize = 0;
        while i < self.enemies.len()
            invariant
                i <= self.enemies@.len() == old(self).enemies@.len(),
                period > 0,
                forall|j: int|
                    0 <= j < i ==> #[trigger] self.enemies@[j] == animated_enemy(
                        old(self).enemies@[j],
                        elapsed,
                        period,
                    ),
                forall|j: int| i <= j < self.enemies@.len() ==> #[trigger] self.enemies@[j] == old(self).enemies@[j],
            decreases self.enemies@.len() - i,
        {
            let mut e = self.enemies[i];
            e.animation = ((e.animation as u128 + elapsed as u128) % period as u128) as u64;
            self.enemies.set(i, e);
            i = i + 1;
        }
    }

    /// Takes `amount` health points from the enemy at `idx`. Health may
    /// become negative; only `prune` removes the enemy.
    pub fn apply_damage_to(&mut self, idx: usize, amount: u64)
        requires
            idx < old(self).enemies@.len(),
        ensures
            final(self).enemies@ == old(self).enemies@.update(
                idx as int,
                damaged_enemy(old(self).enemies@[idx as int], amount as int),
            ),
    {
        let mut e = self.enemies[idx];
        e.health = lower_health(e.health, amount);
        self.enemies.set(idx, e);
    }

    /// Removes the enemies whose health is not positive; the others keep
    /// their order.
    pub fn prune(&mut self)
        ensures
            final(self).enemies@ == living(old(self).enemies@),
            old(self).wf() ==> final(self).wf(),
    {
        let mut kept: Vec<Enemy> = Vec::new();
        let mut i: usize = 0;
        while i < self.enemies.len()
            invariant
                i <= self.enemies@.len(),
                kept@ == living(self.enemies@.subrange(0, i as int)),
            decreases self.enemies@.len() - i,
        {
            let e = self.enemies[i];
            if e.health > 0 {
                kept.push(e);
            }
            proof {
                let s = self.enemies@.subrange(0, i + 1);
                assert(s.drop_last() =~= self.enemies@.subrange(0, i as int));
                assert(s.last() == e);
                reveal(Seq::filter);
            }
            i = i + 1;
        }
        assert(self.enemies@.subrange(0, i as int) =~= self.enemies@);
        proof {
            if old(self).wf() {
                lemma_filter_keeps_valid(self.enemies@, |e: Enemy| is_alive(e));
            }
        }
        self.enemies = kept;
    }

    /// Removes the enemies closer than `distance` to `loc`; the others keep
    /// their order.
    pub fn kill_touching(&mut self, loc: Point, distance: u64)
        requires
            old(self).wf(),
            loc.valid(),
        ensures
            final(self).enemies@ == clear_of(old(self).enemies@, loc, distance as int),
            final(self).wf(),
    {
        let mut kept: Vec<Enemy> = Vec::new();
        let mut i: usize = 0;
        while i < self.enemies.len()
            invariant
                i <= self.enemies@.len(),
                all_valid(self.enemies@),
                loc.valid(),
                kept@ == clear_of(self.enemies@.subrange(0, i as int), loc, distance as int),
            decreases self.enemies@.len() - i,
        {
            let e = self.enemies[i];
            assert(self.enemies@[i as int].loc.valid());
            if at_least_distance(e.loc, loc, distance) {
                kept.push(e);
            }
            proof {
                let s = self.enemies@.subrange(0, i + 1);
                assert(s.drop_last() =~= self.enemies@.subrange(0, i as int));
                assert(s.last() == e);
                reveal(Seq::filter);
            }
            i = i + 1;
        }
        assert(self.enemies@.subrange(0, i as int) =~= self.enemies@);
        proof {
            lemma_filter_keeps_valid(self.enemies@, |e: Enemy| stands_clear(e, loc, distance as int));
        }
        self.enemies = kept;
    }
}

impl Default for HordeEnemies {
    fn default() -> (r: HordeEnemies)
        ensures
            r.enemies@ == Seq::<Enemy>::empty(),
    {
        HordeEnemies::new()
    }
}

} // verus!
