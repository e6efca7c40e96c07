//! The game model and its per-frame update: menus, pause, and the combat
//! tick.

use crate::enemies::{
    all_known, all_valid, farthest_corner, fresh_enemy, in_world, is_alive,
    lemma_permutation_keeps_known, lemma_sorted_by_position_sorts_y, living, lower_health,
    moved_horde, position_le, sorted_by_position, sorted_by_y, steps_fit, sub_health, valid_size,
    Enemy, EnemyMap,
};
use crate::errors::{GameError, Nresult};
use crate::geometry::{dist2, within, within_distance, Direction, Point, UNITS_PER_PIXEL};
use crate::input::{InputMan, Key};
use crate::player::Player;
use crate::proximity::proximity_band;
use crate::renderer::Renderer;
use crate::weapons::{cooldown_after, swing, Weapon};
use crate::world::World;
use vstd::prelude::*;

verus! {

/// Enemies within this distance of the player hurt the player.
pub const DAMAGE_DIST: u64 = 10 * (UNITS_PER_PIXEL as u64);

/// Enemies spawned by hand appear at least this far from the player.
pub const SPAWN_DIST: u64 = 100 * (UNITS_PER_PIXEL as u64);

/// The contact damage that the enemies of `s` deal to a player at
/// `center`: the sum of the attack powers of the kinds of those within
/// `radius`.
pub open spec fn contact_total(s: Seq<Enemy>, center: Point, radius: int, kinds: EnemyMap) -> int
    decreases s.len(),
{
    if s.len() == 0 {
        0
    } else {
        contact_total(s.drop_last(), center, radius, kinds) + if within(
            s.last().loc,
            center,
            radius,
        ) {
            kinds.map@[s.last().id as int].attack as int
        } else {
            0
        }
    }
}

/// Every enemy of `s` within `radius` of `center` has a registered kind.
pub open spec fn contact_known(s: Seq<Enemy>, center: Point, radius: int, kinds: EnemyMap) -> bool {
    forall|i: int|
        0 <= i < s.len() && within(s[i].loc, center, radius) ==> kinds.knows(#[trigger] s[i].id)
}

proof fn lemma_contact_step(s: Seq<Enemy>, i: int, center: Point, radius: int, kinds: EnemyMap)
    requires
        0 <= i < s.len(),
    ensures
        contact_total(s.subrange(0, i + 1), center, radius, kinds) == contact_total(
            s.subrange(0, i),
            center,
            radius,
            kinds,
        ) + if within(s[i].loc, center, radius) {
            kinds.map@[s[i].id as int].attack as int
        } else {
            0
        },
{
    assert(s.subrange(0, i + 1).drop_last() =~= s.subrange(0, i));
}

proof fn lemma_contact_skip(s: Seq<Enemy>, a: int, b: int, center: Point, radius: int, kinds: EnemyMap)
    requires
        0 <= a <= b <= s.len(),
        forall|i: int| a <= i < b ==> !within(#[trigger] s[i].loc, center, radius),
    ensures
        contact_total(s.subrange(0, b), center, radius, kinds) == contact_total(
            s.subrange(0, a),
            center,
            radius,
            kinds,
        ),
    decreases b - a,
{
    if a < b {
        lemma_contact_skip(s, a, b - 1, center, radius, kinds);
        lemma_contact_step(s, b - 1, center, radius, kinds);
    }
}

/// The contact damage that the enemies (sorted by vertical coordinate)
/// deal to a player at `center`, or the kind of one within `radius` that
/// `kinds` does not register.
pub fn contact_damage(enemies: &Vec<Enemy>, center: Point, radius: u64, kinds: &EnemyMap) -> (r:
    Result<u128, GameError>)
    requires
        sorted_by_y(enemies@),
        all_valid(enemies@),
        center.valid(),
    ensures
        r is Ok <==> contact_known(enemies@, center, radius as int, *kinds),
        r matches Ok(t) ==> t == contact_total(enemies@, center, radius as int, *kinds),
        r is Err ==> exists|id: u32| r == Err::<u128, GameError>(GameError::UnknownEntityKind(id)),
{
    let ghost s = enemies@;
    let ghost rad = radius as int;
    let (lower, upper) = proximity_band(enemies, center, radius);
    proof {
        lemma_contact_skip(s, 0, lower as int, center, rad, *kinds);
        assert(s.subrange(0, 0) =~= Seq::<Enemy>::empty());
    }
    let mut total: u128 = 0;
    let mut i: usize = lower;
    while i < upper
        invariant
            lower <= i <= upper <= s.len(),
            s == enemies@,
            rad == radius as int,
            all_valid(s),
            center.valid(),
            total == contact_total(s.subrange(0, i as int), center, rad, *kinds),
            total <= i * 0x1_0000_0000,
            forall|j: int|
                0 <= j < s.len() && !(lower <= j < upper) ==> !within(
                    #[trigger] s[j].loc,
                    center,
                    rad,
                ),
            forall|j: int|
                0 <= j < i && within(s[j].loc, center, rad) ==> kinds.knows(#[trigger] s[j].id),
        decreases upper - i,
    {
        let e = enemies[i];
        assert(e == s[i as int]);
        assert(s[i as int].loc.valid());
        proof {
            lemma_contact_step(s, i as int, center, rad, *kinds);
        }
        let near = within_distance(e.loc, center, radius);
        if near {
            if (e.id as usize) >= kinds.map.len() {
                return Err(GameError::UnknownEntityKind(e.id));
            }
            total = total + kinds.map[e.id as usize].attack as u128;
        }
        i = i + 1;
    }
    proof {
        lemma_contact_skip(s, upper as int, s.len() as int, center, rad, *kinds);
        assert(s.subrange(0, s.len() as int) =~= s);
    }
    Ok(total)
}

#[derive(Clone, Copy, Debug, PartialEq, Eq, Structural)]
pub enum TitlePhase {
    /// The splash screen.
    Start,
    /// The menu, with the selected entry.
    Menu(u32),
}

#[derive(Clone, Copy, Debug, PartialEq, Eq, Structural)]
pub enum GameMode {
    Title { phase: TitlePhase },
    Play,
    Pause,
    /// The player died; nothing more is simulated.
    GameOver,
}

pub struct Status {
    pub mode: GameMode,
    pub health: u32,
    pub lives: u32,
}

/// What the host reads for one frame besides the keyboard.
#[derive(Clone, Copy, Debug, PartialEq, Eq, Structural)]
pub struct FrameInput {
    /// Time since the previous frame, in microseconds.
    pub elapsed: u64,
    /// The attack button is held.
    pub attack_held: bool,
    /// Direction from the player toward the cursor.
    pub aim: Direction,
    /// Number of save files, the entries of the title menu.
    pub saves: u32,
}

/// `v` held to `[0, hi]`.
pub open spec fn clamp(v: int, hi: int) -> int {
    if v < 0 {
        0
    } else if v > hi {
        hi
    } else {
        v
    }
}

/// The title menu's next mode, given which keys were freshly pressed.
pub open spec fn title_next(phase: TitlePhase, up: bool, down: bool, enter: bool, saves: u32) -> GameMode {
    match phase {
        TitlePhase::Start => if enter {
            GameMode::Title { phase: TitlePhase::Menu(0) }
        } else {
            GameMode::Title { phase: TitlePhase::Start }
        },
        TitlePhase::Menu(sel) => {
            let after_up = if up && sel != 0 {
                (sel - 1) as u32
            } else {
                sel
            };
            let after_down = if down && saves != 0 && sel < saves - 1 {
                (sel + 1) as u32
            } else {
                after_up
            };
            if enter {
                GameMode::Play
            } else {
                GameMode::Title { phase: TitlePhase::Menu(after_down) }
            }
        },
    }
}

/// A coordinate after moving by `step` along the axis while the key for
/// the negative direction (`back`) and then the one for the positive
/// direction (`fwd`) are applied, each move held to `[0, hi]`.
pub open spec fn axis_moved(v: int, hi: int, step: int, back: bool, fwd: bool) -> int {
    let v1 = if back {
        clamp(v - step, hi)
    } else {
        v
    };
    if fwd {
        clamp(v1 + step, hi)
    } else {
        v1
    }
}

/// Filtering keeps the store's order.
pub proof fn lemma_filter_keeps_sorted(s: Seq<Enemy>, pred: spec_fn(Enemy) -> bool)
    requires
        sorted_by_position(s),
    ensures
        sorted_by_position(s.filter(pred)),
    decreases s.len(),
{
    reveal(Seq::filter);
    if s.len() > 0 {
        let p = s.drop_last();
        assert(sorted_by_position(p)) by {
            assert forall|i: int, j: int| 0 <= i < j < p.len() implies #[trigger] position_le(
                p[i],
                p[j],
            ) by {
                assert(position_le(s[i], s[j]));
            }
        }
        lemma_filter_keeps_sorted(p, pred);
        let f = p.filter(pred);
        if pred(s.last()) {
            let g = f.push(s.last());
            assert forall|i: int, j: int| 0 <= i < j < g.len() implies #[trigger] position_le(
                g[i],
                g[j],
            ) by {
                if j == g.len() - 1 {
                    assert(f.contains(g[i]));
                    p.lemma_filter_contains_rev(pred, g[i]);
                    let k = choose|k: int| 0 <= k < p.len() && p[k] == g[i];
                    assert(position_le(s[k], s[s.len() - 1]));
                } else {
                    assert(position_le(f[i], f[j]));
                }
            }
        }
    }
}

/// Where the held movement keys take the player of `m0` in `elapsed`
/// microseconds.
pub open spec fn player_moved(m0: GameModel, elapsed: u64) -> Point {
    let step = crate::geometry::travel(m0.player.speed as int, elapsed as int);
    let keys = m0.input.kbd.keys@;
    let p = m0.world.player_pos;
    let size = m0.world.size;
    Point {
        x: axis_moved(p.x as int, size.x as int, step, keys.contains(Key::A), keys.contains(Key::D))
            as i64,
        y: axis_moved(p.y as int, size.y as int, step, keys.contains(Key::W), keys.contains(Key::S))
            as i64,
    }
}

/// `extra` is what a held Space key added to the horde of `m0`: nothing
/// when Space is up, else one fresh enemy of kind 0 placed in the world,
/// far enough from the player at `p` or on the farthest corner.
pub open spec fn spawned(m0: GameModel, p: Point, extra: Seq<Enemy>) -> bool {
    if m0.input.kbd.keys@.contains(Key::Space) {
        let e = extra[0];
        &&& extra.len() == 1
        &&& e == fresh_enemy(0, e.loc, m0.kinds.map@[0])
        &&& in_world(e.loc, m0.world.size)
        &&& (dist2(e.loc, p) >= SPAWN_DIST * SPAWN_DIST || e.loc == farthest_corner(p, m0.world.size))
    } else {
        extra.len() == 0
    }
}

/// A combat tick can run: a held Space key spawns a registered kind, and
/// every enemy of the horde has a registered kind.
pub open spec fn tick_runs(m0: GameModel) -> bool {
    &&& m0.input.kbd.keys@.contains(Key::Space) ==> m0.kinds.knows(0)
    &&& all_known(m0.world.horde.enemies@, m0.kinds)
}

/// The tick from `m0` to `m1`, where `extra` is the spawned enemy (if any)
/// and `s` the horde once moved and sorted: `s` holds the old horde plus
/// `extra`, each moved toward the player's new place; the player loses the
/// contact damage of `s`; a swing hits `s` when the weapon was ready; the
/// dead are then removed; and the game is over exactly when the player
/// died, else a fresh Escape pauses it.
pub open spec fn tick_from(m0: GameModel, m1: GameModel, frame: FrameInput, extra: Seq<Enemy>, s: Seq<
    Enemy,
>) -> bool {
    let p = player_moved(m0, frame.elapsed);
    let kinds = m0.kinds;
    let w0 = m0.player.weapon;
    let ready = cooldown_after(w0.cooldown_counter, frame.elapsed);
    let w1 = Weapon { cooldown_counter: ready, ..w0 };
    let fired = frame.attack_held && ready == 0 && w0.kind.is_melee();
    &&& spawned(m0, p, extra)
    &&& s.to_multiset() == moved_horde(
        m0.world.horde.enemies@ + extra,
        p,
        frame.elapsed,
        kinds,
    ).to_multiset()
    &&& sorted_by_position(s)
    &&& m1.world.player_pos == p
    &&& m1.world.size == m0.world.size
    &&& m1.world.horde.enemies@ == living(
        if fired {
            swing(s, p, frame.aim, w1)
        } else {
            s
        },
    )
    &&& m1.player == (Player {
        health: sub_health(
            m0.player.health as int,
            contact_total(s, p, DAMAGE_DIST as int, kinds),
        ) as i64,
        weapon: Weapon {
            cooldown_counter: if fired {
                w0.cooldown
            } else {
                ready
            },
            ..w0
        },
        ..m0.player
    })
    &&& m1.player.is_dead() ==> m1.status.mode == GameMode::GameOver
    &&& !m1.player.is_dead() ==> m1.status.mode == (if m0.input.kbd.fresh_press(Key::Escape) {
        GameMode::Pause
    } else {
        m0.status.mode
    })
}

/// What a combat tick that succeeded leaves behind: the tick described by
/// `tick_from` for some spawned enemy and some order of the moved horde,
/// which leaves the horde sorted and free of dead enemies.
pub open spec fn tick_done(m0: GameModel, m1: GameModel, frame: FrameInput) -> bool {
    let h = m1.world.horde.enemies@;
    &&& exists|extra: Seq<Enemy>, s: Seq<Enemy>| #[trigger] tick_from(m0, m1, frame, extra, s)
    &&& sorted_by_position(h)
    &&& forall|i: int| 0 <= i < h.len() ==> is_alive(#[trigger] h[i])
}

pub struct GameModel {
    pub status: Status,
    pub world: World,
    pub player: Player,
    pub renderer: Renderer,
    pub input: InputMan,
    /// The enemy kinds, fixed for the whole game.
    pub kinds: EnemyMap,
}

impl GameModel {
    pub open spec fn wf(&self) -> bool {
        self.world.wf()
    }

    /// A model on the title screen, in an empty world of extent
    /// `map_size`, with the starting player.
    pub fn new(kinds: EnemyMap, map_size: Point) -> (r: GameModel)
        requires
            valid_size(map_size),
        ensures
            r.wf(),
            r.status.mode == (GameMode::Title { phase: TitlePhase::Start }),
            r.status.health == 100,
            r.status.lives == 5,
            r.world.size == map_size,
            r.world.player_pos == (Point { x: 0, y: 0 }),
            r.world.horde.enemies@.len() == 0,
            r.kinds.map@ == kinds.map@,
            r.player == crate::player::default_player(),
    {
        GameModel {
            status: Status {
                health: 100,
                lives: 5,
                mode: GameMode::Title { phase: TitlePhase::Start },
            },
            world: World::new(map_size),
            player: Player::default(),
            renderer: Renderer::new(),
            input: InputMan::new(),
            kinds,
        }
    }

    /// Restores the starting player.
    pub fn init(&mut self) -> (r: Nresult)
        ensures
            r is Ok,
            final(self).player == crate::player::default_player(),
            final(self).status == old(self).status,
            final(self).world == old(self).world,
            final(self).kinds == old(self).kinds,
    {
        self.player = Player::default();
        Ok(())
    }

    /// Contact damage: every enemy within `radius` of the player hits the
    /// player at once with its kind's attack power, unbuffered and never
    /// critical. Fails, changing nothing, when such an enemy's kind is not
    /// registered.
    pub fn update_damage(&mut self, radius: u64) -> (r: Nresult)
        requires
            old(self).wf(),
            sorted_by_y(old(self).world.horde.enemies@),
        ensures
            r is Ok <==> contact_known(
                old(self).world.horde.enemies@,
                old(self).world.player_pos,
                radius as int,
                old(self).kinds,
            ),
            r is Err ==> exists|id: u32| r == Err::<(), GameError>(GameError::UnknownEntityKind(id)),
            r is Ok ==> final(self).player == (Player {
                health: sub_health(
                    old(self).player.health as int,
                    contact_total(
                        old(self).world.horde.enemies@,
                        old(self).world.player_pos,
                        radius as int,
                        old(self).kinds,
                    ),
                ) as i64,
                ..old(self).player
            }),
            r is Err ==> final(self).player == old(self).player,
            final(self).world == old(self).world,
            final(self).status == old(self).status,
            final(self).kinds == old(self).kinds,
            final(self).input == old(self).input,
    {
        let total = contact_damage(
            &self.world.horde.enemies,
            self.world.player_pos,
            radius,
            &self.kinds,
        );
        let total = match total {
            Ok(t) => t,
            Err(e) => {
                return Err(e);
            },
        };
        let amount: u64 = if total > 0xffff_ffff_ffff_ffff {
            0xffff_ffff_ffff_ffff
        } else {
            total as u64
        };
        self.player.health = lower_health(self.player.health, amount);
        Ok(())
    }

    fn set_y(&mut self, y: i128)
        requires
            old(self).wf(),
        ensures
            final(self).world.player_pos == (Point {
                y: clamp(y as int, old(self).world.size.y as int) as i64,
                ..old(self).world.player_pos
            }),
            final(self).world.horde == old(self).world.horde,
            final(self).world.size == old(self).world.size,
            final(self).world.map == old(self).world.map,
            final(self).wf(),
            final(self).player == old(self).player,
            final(self).status == old(self).status,
            final(self).kinds == old(self).kinds,
            final(self).input == old(self).input,
    {
        let hi = self.world.size.y;
        self.world.player_pos.y = if y < 0 {
            0
        } else if y > hi as i128 {
            hi
        } else {
            y as i64
        };
    }

    fn set_x(&mut self, x: i128)
        requires
            old(self).wf(),
        ensures
            final(self).world.player_pos == (Point {
                x: clamp(x as int, old(self).world.size.x as int) as i64,
                ..old(self).world.player_pos
            }),
            final(self).world.horde == old(self).world.horde,
            final(self).world.size == old(self).world.size,
            final(self).world.map == old(self).world.map,
            final(self).wf(),
            final(self).player == old(self).player,
            final(self).status == old(self).status,
            final(self).kinds == old(self).kinds,
            final(self).input == old(self).input,
    {
        let hi = self.world.size.x;
        self.world.player_pos.x = if x < 0 {
            0
        } else if x > hi as i128 {
            hi
        } else {
            x as i64
        };
    }

    /// Moves the player with the held keys for `elapsed` microseconds,
    /// keeping it inside the world: W and S move it along the vertical
    /// axis, A and D along the horizontal one.
    pub fn move_player(&mut self, elapsed: u64)
        requires
            old(self).wf(),
        ensures
            ({
                let step = crate::geometry::travel(old(self).player.speed as int, elapsed as int);
                let keys = old(self).input.kbd.keys@;
                let p = old(self).world.player_pos;
                let size = old(self).world.size;
                final(self).world.player_pos == (Point {
                    x: axis_moved(p.x as int, size.x as int, step, keys.contains(Key::A), keys.contains(Key::D)) as i64,
                    y: axis_moved(p.y as int, size.y as int, step, keys.contains(Key::W), keys.contains(Key::S)) as i64,
                })
            }),
            final(self).world.horde == old(self).world.horde,
            final(self).world.size == old(self).world.size,
            final(self).world.map == old(self).world.map,
            final(self).wf(),
            final(self).player == old(self).player,
            final(self).status == old(self).status,
            final(self).kinds == old(self).kinds,
            final(self).input == old(self).input,
    {
        assert(self.player.speed * elapsed <= 0xffff_ffff * 0xffff_ffff_ffff_ffff) by (nonlinear_arith)
            requires self.player.speed <= 0xffff_ffffu32, elapsed <= 0xffff_ffff_ffff_ffffu64;
        let step: i128 = (self.player.speed as u128 * elapsed as u128 / 1_000_000u128) as i128;
        if self.input.kbd.keydown(Key::W) {
            self.set_y(self.world.player_pos.y as i128 - step);
        }
        if self.input.kbd.keydown(Key::S) {
            self.set_y(self.world.player_pos.y as i128 + step);
        }
        if self.input.kbd.keydown(Key::A) {
            self.set_x(self.world.player_pos.x as i128 - step);
        }
        if self.input.kbd.keydown(Key::D) {
            self.set_x(self.world.player_pos.x as i128 + step);
        }
    }

    /// A fresh press of Escape pauses the game.
    pub fn catch_pause(&mut self)
        ensures
            final(self).status.mode == (if old(self).input.kbd.fresh_press(Key::Escape) {
                GameMode::Pause
            } else {
                old(self).status.mode
            }),
            final(self).status.health == old(self).status.health,
            final(self).status.lives == old(self).status.lives,
            final(self).input.kbd.keys@ == old(self).input.kbd.keys@,
            final(self).input.kbd.keypress@ == old(self).input.kbd.keypress@,
            final(self).world == old(self).world,
            final(self).player == old(self).player,
            final(self).kinds == old(self).kinds,
    {
        if self.input.kbd.keypress(Key::Escape) {
            self.status.mode = GameMode::Pause;
        }
    }

    /// A fresh press of Escape resumes the game.
    pub fn update_pause(&mut self)
        ensures
            final(self).status.mode == (if old(self).input.kbd.fresh_press(Key::Escape) {
                GameMode::Play
            } else {
                old(self).status.mode
            }),
            final(self).status.health == old(self).status.health,
            final(self).status.lives == old(self).status.lives,
            final(self).world == old(self).world,
            final(self).player == old(self).player,
            final(self).kinds == old(self).kinds,
    {
        if self.input.kbd.keypress(Key::Escape) {
            self.status.mode = GameMode::Play;
        }
    }

    /// The title screen: Enter leaves the splash screen for the menu, and
    /// the menu for the game; Up and Down move the selection among the
    /// `saves` entries.
    pub fn update_title(&mut self, saves: u32)
        ensures
            !(old(self).status.mode is Title) ==> *final(self) == *old(self),
            old(self).status.mode is Title ==> final(self).status.mode == title_next(
                old(self).status.mode->phase,
                old(self).input.kbd.fresh_press(Key::Up),
                old(self).input.kbd.fresh_press(Key::Down),
                old(self).input.kbd.fresh_press(Key::Enter),
                saves,
            ),
            final(self).status.health == old(self).status.health,
            final(self).status.lives == old(self).status.lives,
            final(self).world == old(self).world,
            final(self).player == old(self).player,
            final(self).kinds == old(self).kinds,
    {
        let ghost kbd0 = self.input.kbd;
        let phase = match self.status.mode {
            GameMode::Title { phase } => phase,
            _ => {
                return;
            },
        };
        match phase {
            TitlePhase::Start => {
                if self.input.kbd.keypress(Key::Enter) {
                    self.status.mode = GameMode::Title { phase: TitlePhase::Menu(0) };
                }
            },
            TitlePhase::Menu(selection) => {
                let up = self.input.kbd.keypress(Key::Up);
                if up && selection != 0 {
                    self.status.mode = GameMode::Title { phase: TitlePhase::Menu(selection - 1) };
                }
                let ghost kbd1 = self.input.kbd;
                assert(kbd1.fresh_press(Key::Down) == kbd0.fresh_press(Key::Down)) by {
                    if up {
                        assert(kbd1.caught@.contains(Key::Down) ==> kbd0.caught@.contains(Key::Down)) by {
                            if kbd1.caught@.contains(Key::Down) {
                                let k = choose|k: int| 0 <= k < kbd1.caught@.len() && kbd1.caught@[k] == Key::Down;
                                assert(k < kbd0.caught@.len());
                                assert(kbd0.caught@[k] == Key::Down);
                            }
                        }
                        assert(kbd0.caught@.contains(Key::Down) ==> kbd1.caught@.contains(Key::Down)) by {
                            if kbd0.caught@.contains(Key::Down) {
                                let k = choose|k: int| 0 <= k < kbd0.caught@.len() && kbd0.caught@[k] == Key::Down;
                                assert(kbd1.caught@[k] == Key::Down);
                            }
                        }
                    }
                }
                let down = self.input.kbd.keypress(Key::Down);
                if down && saves != 0 && selection < saves - 1 {
                    self.status.mode = GameMode::Title { phase: TitlePhase::Menu(selection + 1) };
                }
                let ghost kbd2 = self.input.kbd;
                assert(kbd2.fresh_press(Key::Enter) == kbd0.fresh_press(Key::Enter)) by {
                    assert forall|c: Key| c == Key::Enter implies (kbd2.caught@.contains(c) <==> kbd0.caught@.contains(c)) by {
                        if kbd2.caught@.contains(c) {
                            let k = choose|k: int| 0 <= k < kbd2.caught@.len() && kbd2.caught@[k] == c;
                            assert(k < kbd1.caught@.len());
                            assert(kbd1.caught@[k] == c);
                            assert(k < kbd0.caught@.len());
                            assert(kbd0.caught@[k] == c);
                        }
                        if kbd0.caught@.contains(c) {
                            let k = choose|k: int| 0 <= k < kbd0.caught@.len() && kbd0.caught@[k] == c;
                            assert(kbd1.caught@[k] == c);
                            assert(kbd2.caught@[k] == c);
                        }
                    }
                }
                if self.input.kbd.keypress(Key::Enter) {
                    self.status.mode = GameMode::Play;
                }
            },
        }
    }

    /// One combat tick: the player moves (and spawns an enemy while Space
    /// is held), the weapon cools down, the horde walks toward the player
    /// and is re-sorted, contact damage lands, a held attack swings, the
    /// dead are removed, and the game ends if the player died. Fails on an
    /// enemy of an unregistered kind.
    pub fn update_gameplay(&mut self, frame: FrameInput) -> (r: Nresult)
        requires
            old(self).wf(),
            steps_fit(old(self).kinds, frame.elapsed),
        ensures
            final(self).wf(),
            final(self).kinds == old(self).kinds,
            r is Ok <==> tick_runs(*old(self)),
            r is Err ==> exists|id: u32| r == Err::<(), GameError>(GameError::UnknownEntityKind(id)),
            r is Ok ==> tick_done(*old(self), *final(self), frame),
    {
        let ghost m0 = *self;
        self.catch_pause();
        self.move_player(frame.elapsed);
        let ghost p = self.world.player_pos;
        let ghost h0 = self.world.horde.enemies@;
        let ghost kinds = self.kinds;
        assert(p == player_moved(m0, frame.elapsed));
        let ghost mut extra: Seq<Enemy> = Seq::empty();
        if self.input.kbd.keydown(Key::Space) {
            let pos = self.world.player_pos;
            let size = self.world.size;
            let spawned = self.world.horde.spawn_around(pos, size, SPAWN_DIST, 0, &self.kinds);
            if spawned.is_err() {
                return spawned;
            }
            proof {
                extra = seq![self.world.horde.enemies@.last()];
                assert(self.world.horde.enemies@ =~= h0 + extra);
            }
        } else {
            assert(h0 + extra =~= h0);
        }
        let ghost hx = h0 + extra;
        assert(spawned(m0, p, extra));
        proof {
            if all_known(hx, kinds) {
                assert forall|i: int| 0 <= i < h0.len() implies kinds.knows(#[trigger] h0[i].id) by {
                    assert(hx[i] == h0[i]);
                }
            }
            if tick_runs(m0) {
                assert forall|i: int| 0 <= i < hx.len() implies kinds.knows(#[trigger] hx[i].id) by {
                    if i < h0.len() {
                        assert(hx[i] == h0[i]);
                    } else {
                        assert(hx[i] == extra[i - h0.len()]);
                    }
                }
            }
            assert(all_known(hx, kinds) <==> tick_runs(m0));
        }
        self.player.weapon.adjust_cooldown(frame.elapsed);
        let ghost w1 = self.player.weapon;
        let pos = self.world.player_pos;
        let moved = self.world.horde.move_all_enemies_towards(pos, frame.elapsed, &self.kinds);
        if moved.is_err() {
            return moved;
        }
        let ghost m = self.world.horde.enemies@;
        self.world.horde.sort();
        let ghost s = self.world.horde.enemies@;
        proof {
            lemma_sorted_by_position_sorts_y(s);
            assert forall|i: int| 0 <= i < m.len() implies kinds.knows(#[trigger] m[i].id) by {
                assert(m[i].id == hx[i].id);
            }
            lemma_permutation_keeps_known(m, s, kinds);
        }
        let hit = self.update_damage(DAMAGE_DIST);
        if hit.is_err() {
            return hit;
        }
        let ghost player_hit = self.player;
        if frame.attack_held {
            let ghost before = self.world.horde.enemies@;
            let _ = self.player.weapon.attack(&mut self.world, frame.aim);
            proof {
                let after = self.world.horde.enemies@;
                assert forall|i: int, j: int| 0 <= i < j < after.len() implies #[trigger] position_le(
                    after[i],
                    after[j],
                ) by {
                    assert(position_le(before[i], before[j]));
                    assert(after[i].loc == before[i].loc);
                    assert(after[j].loc == before[j].loc);
                }
                assert forall|i: int| 0 <= i < after.len() implies (#[trigger] after[i]).loc.valid() by {
                    assert(after[i].loc == before[i].loc);
                    assert(before[i].loc.valid());
                }
            }
        }
        let ghost before_prune = self.world.horde.enemies@;
        self.world.horde.prune();
        proof {
            lemma_filter_keeps_sorted(before_prune, |e: Enemy| is_alive(e));
            let h = self.world.horde.enemies@;
            assert forall|i: int| 0 <= i < h.len() implies is_alive(#[trigger] h[i]) by {
                before_prune.lemma_filter_pred(|e: Enemy| is_alive(e), i);
            }
        }
        if self.player.health <= 0 {
            self.status.mode = GameMode::GameOver;
        }
        assert(tick_from(m0, *self, frame, extra, s));
        Ok(())
    }

    /// Runs one frame of the mode in play: the title menu, the combat tick,
    /// or the pause screen. A finished game stays as it is.
    pub fn update(&mut self, frame: FrameInput) -> (r: Nresult)
        requires
            old(self).wf(),
            steps_fit(old(self).kinds, frame.elapsed),
        ensures
            final(self).wf(),
            final(self).kinds == old(self).kinds,
            old(self).status.mode is Title ==> r is Ok && final(self).status.mode == title_next(
                old(self).status.mode->phase,
                old(self).input.kbd.fresh_press(Key::Up),
                old(self).input.kbd.fresh_press(Key::Down),
                old(self).input.kbd.fresh_press(Key::Enter),
                frame.saves,
            ) && final(self).world == old(self).world && final(self).player == old(self).player,
            old(self).status.mode is Pause ==> r is Ok && final(self).status.mode == (if old(
                self,
            ).input.kbd.fresh_press(Key::Escape) {
                GameMode::Play
            } else {
                GameMode::Pause
            }) && final(self).world == old(self).world && final(self).player == old(self).player,
            old(self).status.mode is GameOver ==> r is Ok && final(self).status == old(self).status
                && final(self).world == old(self).world && final(self).player == old(self).player,
            old(self).status.mode is Play ==> (r is Ok <==> tick_runs(*old(self))),
            old(self).status.mode is Play ==> (r is Err ==> exists|id: u32|
                r == Err::<(), GameError>(GameError::UnknownEntityKind(id))),
            old(self).status.mode is Play ==> (r is Ok ==> tick_done(*old(self), *final(self), frame)),
    {
        match self.status.mode {
            GameMode::Title { .. } => {
                self.update_title(frame.saves);
                Ok(())
            },
            GameMode::Play => self.update_gameplay(frame),
            GameMode::Pause => {
                self.update_pause();
                Ok(())
            },
            GameMode::GameOver => Ok(()),
        }
    }
}

} // verus!
