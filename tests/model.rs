use pixel_rebels::enemies::{EnemyKind, EnemyMap};
use pixel_rebels::errors::GameError;
use pixel_rebels::geometry::{Direction, Point};
use pixel_rebels::input::{InputMan, KbdMan, Key};
use pixel_rebels::model::{FrameInput, GameMode, GameModel, TitlePhase};
use pixel_rebels::renderer::Renderer;

fn kinds(attack: u32, speed: u32) -> EnemyMap {
    EnemyMap::new(vec![EnemyKind { frames: 1, cooldown: 1, attack, health: 15, speed, stunnable: false }])
}

fn frame(elapsed: u64, attack_held: bool) -> FrameInput {
    FrameInput { elapsed, attack_held, aim: Direction { x: 1, y: 0 }, saves: 3 }
}

fn press(m: &mut GameModel, down: Vec<Key>, pressed: Vec<Key>) {
    m.input.kbd.update(down, pressed);
}

#[test]
fn keypress_reported_once_per_frame() {
    let mut k = KbdMan::new();
    k.update(vec![Key::W], vec![Key::Enter]);
    assert!(k.keypress_peek(Key::Enter));
    assert!(k.keypress(Key::Enter));
    assert!(!k.keypress(Key::Enter));
    assert!(!k.keypress_peek(Key::Enter));
    assert!(k.keypress_peek_unchecked(Key::Enter));
    assert!(k.keypress_unchecked(Key::Enter));
    assert!(!k.keypress(Key::Escape));
    assert!(k.keydown(Key::W));
    assert!(!k.keydown(Key::S));
    k.update(vec![], vec![Key::Enter]);
    assert!(k.keypress(Key::Enter));
    let input = InputMan::new();
    assert!(input.kbd.keys.is_empty());
    let _ = Renderer::new();
}

#[test]
fn title_menu_navigation() {
    let mut m = GameModel::new(kinds(1, 0), Point::new(100, 100));
    m.update(frame(0, false)).unwrap();
    assert_eq!(m.status.mode, GameMode::Title { phase: TitlePhase::Start });
    press(&mut m, vec![], vec![Key::Enter]);
    m.update(frame(0, false)).unwrap();
    assert_eq!(m.status.mode, GameMode::Title { phase: TitlePhase::Menu(0) });
    press(&mut m, vec![], vec![Key::Up]);
    m.update(frame(0, false)).unwrap();
    assert_eq!(m.status.mode, GameMode::Title { phase: TitlePhase::Menu(0) });
    for want in [1u32, 2, 2] {
        press(&mut m, vec![], vec![Key::Down]);
        m.update(frame(0, false)).unwrap();
        assert_eq!(m.status.mode, GameMode::Title { phase: TitlePhase::Menu(want) });
    }
    press(&mut m, vec![], vec![Key::Up]);
    m.update(frame(0, false)).unwrap();
    assert_eq!(m.status.mode, GameMode::Title { phase: TitlePhase::Menu(1) });
    press(&mut m, vec![], vec![Key::Enter]);
    m.update(frame(0, false)).unwrap();
    assert_eq!(m.status.mode, GameMode::Play);
}

#[test]
fn pause_and_resume() {
    let mut m = GameModel::new(kinds(1, 0), Point::new(100, 100));
    m.status.mode = GameMode::Play;
    press(&mut m, vec![], vec![Key::Escape]);
    m.update(frame(1000, false)).unwrap();
    assert_eq!(m.status.mode, GameMode::Pause);
    m.update(frame(1000, false)).unwrap();
    assert_eq!(m.status.mode, GameMode::Pause);
    press(&mut m, vec![], vec![Key::Escape]);
    m.update(frame(1000, false)).unwrap();
    assert_eq!(m.status.mode, GameMode::Play);
}

#[test]
fn player_moves_and_stays_in_world() {
    let mut m = GameModel::new(kinds(1, 0), Point::new(1_000_000, 1_000_000));
    m.status.mode = GameMode::Play;
    press(&mut m, vec![Key::D, Key::S], vec![]);
    // 300000 units per second for 0.5 s
    m.update(frame(500_000, false)).unwrap();
    assert_eq!(m.world.player_pos, Point::new(150_000, 150_000));
    press(&mut m, vec![Key::W, Key::A], vec![]);
    m.update(frame(1_000_000, false)).unwrap();
    assert_eq!(m.world.player_pos, Point::new(0, 0));
    press(&mut m, vec![Key::D], vec![]);
    m.update(frame(10_000_000, false)).unwrap();
    assert_eq!(m.world.player_pos, Point::new(1_000_000, 0));
}

#[test]
fn tick_hurts_player_and_ends_game() {
    let mut m = GameModel::new(kinds(60, 0), Point::new(100_000, 100_000));
    m.status.mode = GameMode::Play;
    m.world.horde.append(0, Point::new(3000, 0), &m.kinds).unwrap();
    m.update(frame(1000, false)).unwrap();
    assert_eq!(m.player.health, 40);
    assert_eq!(m.status.mode, GameMode::Play);
    m.update(frame(1000, false)).unwrap();
    assert_eq!(m.player.health, -20);
    assert_eq!(m.status.mode, GameMode::GameOver);
    m.update(frame(1000, false)).unwrap();
    assert_eq!(m.player.health, -20);
    assert_eq!(m.status.mode, GameMode::GameOver);
}

#[test]
fn tick_swings_and_prunes() {
    let mut m = GameModel::new(kinds(0, 0), Point::new(1_000_000, 1_000_000));
    m.status.mode = GameMode::Play;
    m.world.horde.append(0, Point::new(50_000, 0), &m.kinds).unwrap();
    m.world.horde.append(0, Point::new(0, 50_000), &m.kinds).unwrap();
    m.update(frame(1000, true)).unwrap();
    // the sword (power 10) hits the enemy ahead, which keeps 5 health
    assert_eq!(m.world.horde.enemies.len(), 2);
    assert_eq!(m.player.weapon.cooldown_counter, 300_000);
    m.update(frame(300_000, true)).unwrap();
    assert_eq!(m.world.horde.enemies.len(), 1);
    assert_eq!(m.world.horde.enemies[0].loc, Point::new(0, 50_000));
    assert_eq!(m.player.weapon.cooldown_counter, 300_000);
}

#[test]
fn tick_walks_horde_and_sorts() {
    let mut m = GameModel::new(kinds(0, 1_000_000), Point::new(1_000_000, 1_000_000));
    m.status.mode = GameMode::Play;
    m.world.horde.append(0, Point::new(0, 900_000), &m.kinds).unwrap();
    m.world.horde.append(0, Point::new(0, 500_000), &m.kinds).unwrap();
    m.update(frame(100_000, false)).unwrap();
    let ys: Vec<i64> = m.world.horde.enemies.iter().map(|e| e.loc.y).collect();
    assert_eq!(ys, vec![400_000, 800_000]);
}

#[test]
fn tick_reports_unknown_kind() {
    let mut m = GameModel::new(kinds(0, 0), Point::new(1000, 1000));
    m.status.mode = GameMode::Play;
    press(&mut m, vec![Key::Space], vec![]);
    let empty = GameModel::new(EnemyMap::new(vec![]), Point::new(1000, 1000));
    let mut e = empty;
    e.status.mode = GameMode::Play;
    e.input.kbd.update(vec![Key::Space], vec![]);
    assert_eq!(e.update(frame(0, false)), Err(GameError::UnknownEntityKind(0)));
    m.update(frame(0, false)).unwrap();
    assert_eq!(m.world.horde.enemies.len(), 1);
}

#[test]
fn init_restores_player() {
    let mut m = GameModel::new(kinds(0, 0), Point::new(1000, 1000));
    m.player.health = 3;
    m.init().unwrap();
    assert_eq!(m.player.health, 100);
    assert_eq!(m.world.map_size(), Point::new(1000, 1000));
}
