use pixel_rebels::enemies::{get_enemy_info, Enemy, EnemyKind, EnemyMap, HordeEnemies};
use pixel_rebels::errors::GameError;
use pixel_rebels::geometry::{floor_sqrt, Point};
use pixel_rebels::proximity::find_in_distance;

fn kind(attack: u32, health: u32, speed: u32) -> EnemyKind {
    EnemyKind { frames: 4, cooldown: 500_000, attack, health, speed, stunnable: false }
}

fn table() -> EnemyMap {
    EnemyMap::new(vec![kind(1, 20, 50_000), kind(2, 30, 40_000)])
}

fn enemy_at(x: i64, y: i64, health: i64) -> Enemy {
    Enemy {
        id: 0,
        loc: Point::new(x, y),
        velocity: Point::new(0, 0),
        animation: 0,
        health,
        stun_timer: 0,
    }
}

struct Lcg(u64);

impl Lcg {
    fn next(&mut self) -> u64 {
        self.0 = self.0.wrapping_mul(6364136223846793005).wrapping_add(1442695040888963407);
        self.0 >> 33
    }

    fn coord(&mut self, extent: i64) -> i64 {
        (self.next() % (2 * extent as u64 + 1)) as i64 - extent
    }
}

fn random_horde(rng: &mut Lcg, n: usize, extent: i64) -> HordeEnemies {
    let mut h = HordeEnemies::new();
    for i in 0..n {
        let mut e = enemy_at(rng.coord(extent), rng.coord(extent), i as i64 + 1);
        if i % 7 == 3 && i > 0 {
            // repeat a vertical coordinate to exercise ties
            e.loc.y = h.enemies[i - 1].loc.y;
        }
        h.enemies.push(e);
    }
    h
}

#[test]
fn sort_orders_by_y_then_x() {
    let mut rng = Lcg(7);
    for round in 0..20 {
        let mut h = random_horde(&mut rng, 5 + round * 13, 50);
        let mut before: Vec<(i64, i64, i64)> =
            h.enemies.iter().map(|e| (e.loc.y, e.loc.x, e.health)).collect();
        h.sort();
        for w in h.enemies.windows(2) {
            assert!(w[0].loc.y <= w[1].loc.y);
            if w[0].loc.y == w[1].loc.y {
                assert!(w[0].loc.x <= w[1].loc.x);
            }
        }
        let mut after: Vec<(i64, i64, i64)> =
            h.enemies.iter().map(|e| (e.loc.y, e.loc.x, e.health)).collect();
        before.sort();
        after.sort();
        assert_eq!(before, after);
    }
}

#[test]
fn sort_reorders_an_unsorted_horde() {
    let mut h = HordeEnemies::new();
    h.enemies.push(enemy_at(3, 9, 1));
    h.enemies.push(enemy_at(5, 1, 2));
    h.enemies.push(enemy_at(-2, 1, 3));
    h.sort();
    let order: Vec<i64> = h.enemies.iter().map(|e| e.health).collect();
    assert_eq!(order, vec![3, 2, 1]);
    let mut g = HordeEnemies::new();
    g.enemies.push(enemy_at(0, 4, 1));
    g.enemies.push(enemy_at(0, -4, 2));
    g.sort_y();
    assert_eq!(g.enemies[0].health, 2);
}

#[test]
fn proximity_matches_brute_force() {
    let mut rng = Lcg(42);
    for round in 0..40 {
        let mut h = random_horde(&mut rng, round * 5, 100);
        h.sort();
        let center = Point::new(rng.coord(100), rng.coord(100));
        let radii = [0u64, 1, 7, 30, 1_000_000, rng.next() % 150];
        for &r in radii.iter() {
            let got = find_in_distance(&h.enemies, center, r);
            let want: Vec<usize> = (0..h.enemies.len())
                .filter(|&i| {
                    let dx = (h.enemies[i].loc.x - center.x) as i128;
                    let dy = (h.enemies[i].loc.y - center.y) as i128;
                    dx * dx + dy * dy <= (r as i128) * (r as i128)
                })
                .collect();
            assert_eq!(got, want);
        }
    }
}

#[test]
fn proximity_radius_zero_and_empty() {
    let mut h = HordeEnemies::new();
    assert!(find_in_distance(&h.enemies, Point::new(0, 0), 10).is_empty());
    h.enemies.push(enemy_at(0, 0, 1));
    h.enemies.push(enemy_at(1, 0, 1));
    h.sort();
    assert_eq!(find_in_distance(&h.enemies, Point::new(0, 0), 0), vec![0]);
    assert!(find_in_distance(&h.enemies, Point::new(0, 50), 3).is_empty());
    assert!(find_in_distance(&h.enemies, Point::new(0, -50), 3).is_empty());
}

#[test]
fn prune_keeps_living_in_order() {
    let mut h = HordeEnemies::new();
    for (i, hp) in [5i64, 0, -3, 7, 1].iter().enumerate() {
        h.enemies.push(enemy_at(i as i64, 0, *hp));
    }
    h.prune();
    let left: Vec<(i64, i64)> = h.enemies.iter().map(|e| (e.loc.x, e.health)).collect();
    assert_eq!(left, vec![(0, 5), (3, 7), (4, 1)]);
}

#[test]
fn kill_touching_removes_close_enemies() {
    let mut h = HordeEnemies::new();
    h.enemies.push(enemy_at(3, 4, 1));
    h.enemies.push(enemy_at(1, 1, 2));
    h.enemies.push(enemy_at(10, 0, 3));
    h.kill_touching(Point::new(0, 0), 5);
    let left: Vec<i64> = h.enemies.iter().map(|e| e.health).collect();
    assert_eq!(left, vec![1, 3]);
}

#[test]
fn append_uses_kind_stats() {
    let kinds = table();
    let mut h = HordeEnemies::default();
    assert!(h.append(1, Point::new(4, 5), &kinds).is_ok());
    let e = h.get_ref(0).unwrap();
    assert_eq!(e.health, 30);
    assert_eq!(e.id, 1);
    assert_eq!(e.loc, Point::new(4, 5));
    assert_eq!(e.stun_timer, 0);
    assert_eq!(e.animation, 0);
    assert!(h.get_ref(1).is_none());
}

#[test]
fn append_unknown_kind_fails() {
    let kinds = table();
    let mut h = HordeEnemies::new();
    assert_eq!(h.append(9, Point::new(0, 0), &kinds), Err(GameError::UnknownEntityKind(9)));
    assert!(h.enemies.is_empty());
}

#[test]
fn spawn_lands_in_world_and_far_enough() {
    let kinds = table();
    let mut h = HordeEnemies::new();
    let player = Point::new(500, 500);
    let size = Point::new(1000, 1000);
    for _ in 0..200 {
        h.spawn_around(player, size, 300, 0, &kinds).unwrap();
    }
    assert_eq!(h.enemies.len(), 200);
    for e in h.enemies.iter() {
        assert!(0 <= e.loc.x && e.loc.x <= 1000 && 0 <= e.loc.y && e.loc.y <= 1000);
        let dx = e.loc.x - 500;
        let dy = e.loc.y - 500;
        assert!(dx * dx + dy * dy >= 300 * 300);
        assert_eq!(e.health, 20);
    }
}

#[test]
fn spawn_falls_back_to_far_corner() {
    let kinds = table();
    let mut h = HordeEnemies::new();
    h.spawn_around(Point::new(2, 9), Point::new(10, 10), 1_000, 1, &kinds).unwrap();
    assert_eq!(h.enemies[0].loc, Point::new(10, 0));
}

#[test]
fn spawn_unknown_kind_fails() {
    let kinds = table();
    let mut h = HordeEnemies::new();
    let r = h.spawn_around(Point::new(0, 0), Point::new(10, 10), 1, 5, &kinds);
    assert_eq!(r, Err(GameError::UnknownEntityKind(5)));
    assert!(h.enemies.is_empty());
}

#[test]
fn enemies_walk_toward_player() {
    let kinds = table();
    let mut h = HordeEnemies::new();
    h.append(0, Point::new(0, 0), &kinds).unwrap();
    h.append(1, Point::new(3000, 4000), &kinds).unwrap();
    h.append(0, Point::new(0, 10), &kinds).unwrap();
    // kind 0: 50000 units/s, kind 1: 40000 units/s; 0.1 s
    h.move_all_enemies_towards(Point::new(0, 100_000), 100_000, &kinds).unwrap();
    assert_eq!(h.enemies[0].loc, Point::new(0, 5000));
    // kind 1 covers 4000 units along (-3000, 96000), length 96046
    let e = h.enemies[1].loc;
    assert_eq!(e, Point::new(3000 - 3000 * 4000 / 96046, 4000 + 96000 * 4000 / 96046));
    assert_eq!(h.enemies[2].loc, Point::new(0, 5010));
}

#[test]
fn enemy_passes_target_by_full_step() {
    // 1000 units in one second along (30, 40): the way is 50 units long
    let p = HordeEnemies::move_pt_towards(Point::new(0, 0), Point::new(30, 40), 1000, 1_000_000);
    assert_eq!(p, Point::new(600, 800));
    let q = HordeEnemies::move_pt_towards(Point::new(7, 7), Point::new(7, 7), 1000, 1_000_000);
    assert_eq!(q, Point::new(7, 7));
    let r = HordeEnemies::move_pt_towards(Point::new(0, 0), Point::new(-30, -40), 10, 1_000_000);
    assert_eq!(r, Point::new(-6, -8));
    // five units from the player with a step of 30: ends 25 past it
    let s = HordeEnemies::move_pt_towards(Point::new(-5, 0), Point::new(0, 0), 30, 1_000_000);
    assert_eq!(s, Point::new(25, 0));
}

#[test]
fn step_bound_check() {
    let kinds = table();
    assert!(kinds.fits_step(1_000_000));
    assert!(!kinds.fits_step(u64::MAX));
}

#[test]
fn move_with_unknown_kind_fails_and_moves_nobody() {
    let kinds = table();
    let mut h = HordeEnemies::new();
    h.append(0, Point::new(0, 0), &kinds).unwrap();
    let mut stray = enemy_at(5, 5, 1);
    stray.id = 3;
    h.enemies.push(stray);
    let r = h.move_all_enemies_towards(Point::new(100, 100), 1_000_000, &kinds);
    assert_eq!(r, Err(GameError::UnknownEntityKind(3)));
    assert_eq!(h.enemies[0].loc, Point::new(0, 0));
}

#[test]
fn animation_wraps() {
    let mut h = HordeEnemies::new();
    let mut e = enemy_at(0, 0, 1);
    e.animation = 500_000;
    h.enemies.push(e);
    h.update_anim_frames(250_000, 600_000);
    assert_eq!(h.enemies[0].animation, 150_000);
    h.update_anim_frames(0, 600_000);
    assert_eq!(h.enemies[0].animation, 150_000);
}

#[test]
fn damage_may_make_health_negative() {
    let mut h = HordeEnemies::new();
    h.enemies.push(enemy_at(0, 0, 3));
    h.apply_damage_to(0, 10);
    assert_eq!(h.enemies[0].health, -7);
    if let Some(e) = h.get_ref_mut(0) {
        e.health = 4;
    }
    assert_eq!(h.enemies[0].health, 4);
    assert!(h.get_ref_mut(1).is_none());
}

#[test]
fn kind_lookup() {
    let kinds = EnemyMap::init(&vec![3, 6]);
    let k0 = get_enemy_info(&kinds, 0).unwrap();
    assert_eq!((k0.health, k0.speed, k0.attack, k0.frames), (20, 50_000, 1, 3));
    let k1 = get_enemy_info(&kinds, 1).unwrap();
    assert_eq!((k1.health, k1.speed, k1.attack, k1.frames), (30, 40_000, 2, 6));
    assert!(get_enemy_info(&kinds, 2).is_none());
    let bare = EnemyMap::init(&vec![]);
    assert_eq!(get_enemy_info(&bare, 1).unwrap().frames, 0);
}

#[test]
fn integer_square_root() {
    assert_eq!(floor_sqrt(0), 0);
    assert_eq!(floor_sqrt(15), 3);
    assert_eq!(floor_sqrt(16), 4);
    assert_eq!(floor_sqrt(u64::MAX), 0xffff_ffff);
}
