use pixel_rebels::arms::Weapon as Figures;
use pixel_rebels::damage::{Damage, Damageable, CHANCE_SCALE};
use pixel_rebels::enemies::{Enemy, EnemyKind, EnemyMap};
use pixel_rebels::geometry::{cone_contains, Direction, Point, COS_SCALE};
use pixel_rebels::model::GameModel;
use pixel_rebels::player::Player;
use pixel_rebels::weapons::{Weapon, WeaponKind};
use pixel_rebels::world::World;

fn cos_of_half_angle(rad: f64) -> i16 {
    (rad.cos() * COS_SCALE as f64).round() as i16
}

fn sword(range: u64, half_angle: f64, cooldown: u64) -> Weapon {
    Weapon {
        power: 10,
        crit_chance: 0,
        cooldown,
        cooldown_counter: 0,
        knockback: 0,
        stun: 0,
        animation: 0,
        kind: WeaponKind::Melee { range, half_angle_cos: cos_of_half_angle(half_angle) },
    }
}

fn with_crit(power: u16, crit_chance: u32) -> Weapon {
    Weapon {
        power,
        crit_chance,
        cooldown: 0,
        cooldown_counter: 0,
        knockback: 0,
        stun: 250_000,
        animation: 0,
        kind: WeaponKind::Projectile { bullet: 0, speed: 1 },
    }
}

fn enemy_at(x: i64, y: i64) -> Enemy {
    Enemy { id: 0, loc: Point::new(x, y), velocity: Point::new(0, 0), animation: 0, health: 20, stun_timer: 0 }
}

fn world_with(enemies: &[(i64, i64)]) -> World {
    let mut w = World::new(Point::new(1000, 1000));
    for &(x, y) in enemies {
        w.horde.enemies.push(enemy_at(x, y));
    }
    w.horde.sort();
    w
}

fn health_at(w: &World, x: i64, y: i64) -> i64 {
    w.horde.enemies.iter().find(|e| e.loc == Point::new(x, y)).unwrap().health
}

#[test]
fn damage_evaluates_once() {
    let w = with_crit(1, 500_000);
    for _ in 0..100 {
        let mut d = Damage::new(7, 0, Some(&w), false);
        let first = d.evaluate().unwrap();
        let second = d.evaluate().unwrap();
        assert_eq!(first, second);
        assert!(first == 14 || first == 28);
        assert_eq!(d.calculated, Some(first));
    }
    let mut d = Damage::new(7, 0, Some(&w), false);
    let a = d.evaluate_with_roll(0);
    let b = d.evaluate_with_roll(u32::MAX);
    assert_eq!((a, b), (28, 28));
}

#[test]
fn crit_chance_zero_never_crits_and_one_always_does() {
    let raw = 10u32;
    let never = with_crit(4, 0);
    for _ in 0..10_000 {
        let v = Damage::new(raw, 0, Some(&never), false).evaluate().unwrap();
        assert!((v as f64) < raw as f64 * 5.0 * 2.0 * 0.999);
        assert_eq!(v, 50);
    }
    let always = with_crit(4, CHANCE_SCALE as u32);
    for _ in 0..10_000 {
        let v = Damage::new(raw, 0, Some(&always), false).evaluate().unwrap();
        assert_eq!(v, 100);
    }
}

#[test]
fn damage_formula() {
    let w = with_crit(2, 250_000);
    let mut d = Damage::new(5, 3, Some(&w), false);
    // a roll of 2^30 is a quarter: not below a quarter
    assert_eq!(d.evaluate_with_roll(1 << 30), 15);
    let mut e = Damage::new(5, 3, Some(&w), false);
    assert_eq!(e.evaluate_with_roll((1 << 30) - 1), 30);
    let mut bare = Damage::new(5, 0, None, false);
    assert_eq!(bare.evaluate().unwrap(), 5);
    let mut forced = Damage::new(5, 0, None, true);
    assert_eq!(forced.evaluate().unwrap(), 10);
    assert_eq!(Damage::new(5, 0, Some(&w), false).stun(), 250_000);
    assert_eq!(Damage::new(5, 0, None, false).stun(), 0);
}

#[test]
fn player_takes_hits_unless_stunned() {
    let mut p = Player::default();
    let w = with_crit(1, 0);
    p.take_damage(Damage::new(10, 0, Some(&w), false), vec![]).unwrap();
    assert_eq!(p.health, 80);
    assert_eq!(p.stun, 250_000);
    p.take_damage(Damage::new(10, 0, Some(&w), false), vec![]).unwrap();
    assert_eq!(p.health, 80);
    p.take_damage_raw(30).unwrap();
    assert_eq!(p.health, 50);
    let mut e = enemy_at(0, 0);
    e.take_damage(Damage::new(3, 0, None, false), vec![]).unwrap();
    assert_eq!(e.health, 17);
    e.take_damage_raw(30).unwrap();
    assert_eq!(e.health, -13);
}

#[test]
fn contact_damage_from_near_enemy_only() {
    let kinds = EnemyMap::new(vec![EnemyKind {
        frames: 1,
        cooldown: 500_000,
        attack: 5,
        health: 20,
        speed: 0,
        stunnable: false,
    }]);
    let mut m = GameModel::new(kinds, Point::new(10_000, 10_000));
    m.world.horde.append(0, Point::new(500, 0), &m.kinds).unwrap();
    m.world.horde.append(0, Point::new(5000, 5000), &m.kinds).unwrap();
    m.world.horde.sort();
    let before = m.player.health;
    m.update_damage(1000).unwrap();
    assert_eq!(before - m.player.health, 5);
}

#[test]
fn melee_cone_hits() {
    let mut w = world_with(&[(8, 0), (0, 8), (11, 0)]);
    let mut s = sword(10, std::f64::consts::PI / 6.0, 500_000);
    let aim = Direction { x: 1000, y: 0 };
    assert!(s.kind.collides(Point::new(0, 0), Point::new(8, 0), aim));
    assert!(!s.kind.collides(Point::new(0, 0), Point::new(0, 8), aim));
    assert!(!s.kind.collides(Point::new(0, 0), Point::new(11, 0), aim));
    s.attack(&mut w, aim).unwrap();
    assert_eq!(health_at(&w, 8, 0), 10);
    assert_eq!(health_at(&w, 0, 8), 20);
    assert_eq!(health_at(&w, 11, 0), 20);
}

#[test]
fn cone_edges() {
    let c = cos_of_half_angle(std::f64::consts::PI / 4.0);
    let o = Point::new(0, 0);
    let aim = Direction { x: 0, y: 1 };
    assert!(cone_contains(o, Point::new(0, 5), aim, c));
    assert!(cone_contains(o, Point::new(3, 5), aim, c));
    assert!(!cone_contains(o, Point::new(6, 5), aim, c));
    assert!(!cone_contains(o, Point::new(0, -5), aim, c));
    assert!(cone_contains(o, o, aim, c));
    // a half-angle beyond a right angle takes in the sides
    let wide = cos_of_half_angle(2.0);
    assert!(cone_contains(o, Point::new(5, 0), aim, wide));
    assert!(!cone_contains(o, Point::new(0, -5), aim, wide));
    // bearings on both sides of the half turn
    let back = Direction { x: -1, y: 0 };
    assert!(cone_contains(o, Point::new(-9, 1), back, c));
    assert!(cone_contains(o, Point::new(-9, -1), back, c));
}

#[test]
fn projectile_weapon_does_not_swing() {
    let mut w = world_with(&[(1, 0)]);
    let mut gun = with_crit(1, 0);
    gun.cooldown = 100;
    gun.attack(&mut w, Direction { x: 1, y: 0 }).unwrap();
    assert_eq!(health_at(&w, 1, 0), 20);
    assert_eq!(gun.cooldown_counter, 0);
}

#[test]
fn cooldown_gates_attacks() {
    let mut w = world_with(&[(5, 0)]);
    let mut s = sword(10, std::f64::consts::PI / 6.0, 500_000);
    let aim = Direction { x: 1, y: 0 };
    s.attack(&mut w, aim).unwrap();
    assert_eq!(s.cooldown_counter, 500_000);
    s.adjust_cooldown(0);
    s.attack(&mut w, aim).unwrap();
    assert_eq!(health_at(&w, 5, 0), 10);
    for _ in 0..4 {
        s.adjust_cooldown(100_000);
        s.attack(&mut w, aim).unwrap();
        assert_eq!(health_at(&w, 5, 0), 10);
    }
    s.adjust_cooldown(100_000);
    assert_eq!(s.cooldown_counter, 0);
    s.attack(&mut w, aim).unwrap();
    assert_eq!(health_at(&w, 5, 0), 0);
    s.adjust_cooldown(2_000_000);
    assert_eq!(s.cooldown_counter, 0);
}

#[test]
fn weapon_reports_its_figures() {
    let s = sword(10, 0.5, 1);
    assert!(!s.is_projectile());
    assert_eq!(s.power(), 10);
    assert_eq!(s.crit_chance(), 0);
    let g = with_crit(3, 7);
    assert!(g.is_projectile());
    assert_eq!((g.power(), g.crit_chance()), (3, 7));
}
