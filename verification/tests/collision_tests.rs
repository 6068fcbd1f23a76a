use tank_shmup::collision::{resolve_collisions, resolve_pair, Outcome, FREEZE_TIME};
use tank_shmup::components::{
    AttackTimer, Damage, EntityKind, Health, HitEnemies, ImmobileTimer, Knockback, Pierce,
    Position, Vector,
};
use tank_shmup::id_set::IdSet;
use tank_shmup::registry::{
    Body, BodyMode, BulletData, CoinData, EnemyData, Entry, PlayerData, Record, Registry,
};
use tank_shmup::resources::{Coins, HasIce};
use tank_shmup::sweep::{death_sweep, despawn_offscreen, Drop, COIN_LAUNCH_SPEED};
use tank_shmup::timer::Timer;

fn make_player(registry: &mut Registry, x: i32, y: i32) -> u64 {
    registry.spawn(Entry {
        position: Position { x, y },
        body: Body::new(BodyMode::Fixed, None, None),
        record: Record::Player(PlayerData { health: Health::new(200) }),
    })
}

fn make_enemy(registry: &mut Registry, x: i32, y: i32, health: Health) -> u64 {
    registry.spawn(Entry {
        position: Position { x, y },
        body: Body::new(
            BodyMode::Dynamic,
            Some(Vector { x: 0, y: 0 }),
            Some(Vector { x: 0, y: 0 }),
        ),
        record: Record::Enemy(EnemyData {
            health,
            damage: Damage(10),
            attack: AttackTimer(Timer::new(500_000_000, true)),
            immobile: None,
        }),
    })
}

fn make_bullet(registry: &mut Registry, pierce: u32, damage: u32, knockback: u32) -> u64 {
    registry.spawn(Entry {
        position: Position { x: 0, y: 0 },
        body: Body::new(BodyMode::Dynamic, Some(Vector { x: 0, y: 0 }), None),
        record: Record::Bullet(BulletData {
            pierce: Pierce(pierce),
            damage: Damage(damage),
            knockback: Knockback(knockback),
            hit: HitEnemies::default(),
        }),
    })
}

fn make_coin(registry: &mut Registry, value: u32) -> u64 {
    registry.spawn(Entry {
        position: Position { x: 5, y: 5 },
        body: Body::new(BodyMode::Kinematic, None, None),
        record: Record::Coin(CoinData { value }),
    })
}

fn immobile_of(registry: &Registry, id: u64) -> Option<ImmobileTimer> {
    match &registry.get(id).unwrap().record {
        Record::Enemy(data) => data.immobile,
        _ => None,
    }
}

#[test]
fn single_pierce_bullet_kills_weak_enemy_and_a_coin_drops() {
    let mut registry = Registry::new();
    let mut coins = Coins(0);
    let player = make_player(&mut registry, 0, 0);
    let enemy = make_enemy(&mut registry, 30, 40, Health(40, 100));
    let bullet = make_bullet(&mut registry, 1, 50, 0);
    let outcomes =
        resolve_collisions(&mut registry, &mut coins, &HasIce(false), &vec![(bullet, enemy)]);
    assert_eq!(
        outcomes,
        vec![Outcome::Hit { bullet, enemy, knockback: Knockback(0), frozen: false, spent: true }]
    );
    assert!(!registry.contains(bullet));
    assert_eq!(registry.health(enemy), Some(Health(-10, 100)));
    let goal = registry.position(player);
    let drops = death_sweep(&mut registry, goal);
    assert_eq!(
        drops,
        vec![Drop {
            enemy,
            coin: 3,
            at: Position { x: 30, y: 40 },
            toward: Some(Position { x: 0, y: 0 }),
            speed: COIN_LAUNCH_SPEED,
        }]
    );
    assert_eq!(COIN_LAUNCH_SPEED, 500);
    assert!(!registry.contains(enemy));
    assert_eq!(registry.kind(3), Some(EntityKind::Coin));
    assert_eq!(registry.position(3), Some(Position { x: 30, y: 40 }));
    assert_eq!(registry.issued(), 4);
    assert!(registry.contains(player));
    assert_eq!(coins, Coins(0));
}

#[test]
fn piercing_bullet_kills_three_enemies_in_successive_ticks() {
    let mut registry = Registry::new();
    let mut coins = Coins(0);
    let _player = make_player(&mut registry, 0, 0);
    let foes = [
        make_enemy(&mut registry, 10, 0, Health::new(10)),
        make_enemy(&mut registry, 20, 0, Health::new(10)),
        make_enemy(&mut registry, 30, 0, Health::new(10)),
    ];
    let bullet = make_bullet(&mut registry, 3, 50, 0);
    for (round, foe) in foes.iter().enumerate() {
        assert!(registry.contains(bullet));
        assert_eq!(registry.pierce(bullet), Some(Pierce(3 - round as u32)));
        let outcomes =
            resolve_collisions(&mut registry, &mut coins, &HasIce(false), &vec![(bullet, *foe)]);
        assert_eq!(
            outcomes,
            vec![Outcome::Hit {
                bullet,
                enemy: *foe,
                knockback: Knockback(0),
                frozen: false,
                spent: round == 2,
            }]
        );
        let drops = death_sweep(&mut registry, Some(Position { x: 0, y: 0 }));
        assert_eq!(drops.len(), 1);
        assert_eq!(drops[0].enemy, *foe);
        assert!(!registry.contains(*foe));
    }
    assert!(!registry.contains(bullet));
    assert_eq!(registry.pierce(bullet), None);
}

#[test]
fn bullet_and_enemy_are_struck_once_per_tick() {
    let mut registry = Registry::new();
    let mut coins = Coins(0);
    let a = make_enemy(&mut registry, 0, 0, Health::new(100));
    let b = make_enemy(&mut registry, 0, 0, Health::new(100));
    let first = make_bullet(&mut registry, 3, 50, 0);
    let second = make_bullet(&mut registry, 3, 50, 0);
    let pairs = vec![(first, a), (first, b), (second, a), (b, second)];
    let outcomes = resolve_collisions(&mut registry, &mut coins, &HasIce(false), &pairs);
    assert_eq!(
        outcomes,
        vec![
            Outcome::Hit {
                bullet: first,
                enemy: a,
                knockback: Knockback(0),
                frozen: false,
                spent: false
            },
            Outcome::Ignored,
            Outcome::Ignored,
            Outcome::Hit {
                bullet: second,
                enemy: b,
                knockback: Knockback(0),
                frozen: false,
                spent: false
            },
        ]
    );
    assert_eq!(registry.pierce(first), Some(Pierce(2)));
    assert_eq!(registry.pierce(second), Some(Pierce(2)));
    assert_eq!(registry.health(a), Some(Health(50, 100)));
    assert_eq!(registry.health(b), Some(Health(50, 100)));
}

#[test]
fn bullet_never_damages_the_same_enemy_twice() {
    let mut registry = Registry::new();
    let mut coins = Coins(0);
    let foe = make_enemy(&mut registry, 0, 0, Health::new(1000));
    let bullet = make_bullet(&mut registry, 5, 50, 0);
    let first =
        resolve_collisions(&mut registry, &mut coins, &HasIce(false), &vec![(foe, bullet)]);
    assert!(matches!(first[0], Outcome::Hit { .. }));
    assert!(registry.has_hit(bullet, foe));
    for _ in 0..3 {
        let again = resolve_collisions(
            &mut registry,
            &mut coins,
            &HasIce(false),
            &vec![(bullet, foe), (foe, bullet)],
        );
        assert_eq!(again, vec![Outcome::Ignored, Outcome::Ignored]);
    }
    assert_eq!(registry.health(foe), Some(Health(950, 1000)));
    assert_eq!(registry.pierce(bullet), Some(Pierce(4)));
    assert!(registry.has_hit(bullet, foe));
}

#[test]
fn pierce_counts_down_by_one_per_distinct_enemy() {
    let mut registry = Registry::new();
    let mut coins = Coins(0);
    let foes: Vec<u64> =
        (0..4).map(|_| make_enemy(&mut registry, 0, 0, Health::new(1000))).collect();
    let bullet = make_bullet(&mut registry, 4, 1, 0);
    let mut last = 4;
    for (round, foe) in foes.iter().enumerate() {
        resolve_collisions(&mut registry, &mut coins, &HasIce(false), &vec![(bullet, *foe)]);
        match registry.pierce(bullet) {
            Some(Pierce(left)) => {
                assert_eq!(left, last - 1);
                assert!(left >= 1);
                last = left;
            }
            None => assert_eq!(round, 3),
        }
    }
    assert!(!registry.contains(bullet));
}

#[test]
fn knockback_is_reported_with_the_hit() {
    let mut registry = Registry::new();
    let mut coins = Coins(0);
    let foe = make_enemy(&mut registry, 0, 0, Health::new(100));
    let bullet = make_bullet(&mut registry, 2, 100, 2000);
    let outcomes =
        resolve_collisions(&mut registry, &mut coins, &HasIce(false), &vec![(bullet, foe)]);
    assert_eq!(
        outcomes,
        vec![Outcome::Hit {
            bullet,
            enemy: foe,
            knockback: Knockback(2000),
            frozen: false,
            spent: false
        }]
    );
}

#[test]
fn freezing_hit_attaches_one_countdown_and_does_not_stack() {
    let mut registry = Registry::new();
    let mut coins = Coins(0);
    let foe = make_enemy(&mut registry, 0, 0, Health::new(1000));
    let first = make_bullet(&mut registry, 2, 10, 0);
    let second = make_bullet(&mut registry, 2, 10, 0);
    let outcomes =
        resolve_collisions(&mut registry, &mut coins, &HasIce(true), &vec![(first, foe)]);
    assert_eq!(
        outcomes,
        vec![Outcome::Hit {
            bullet: first,
            enemy: foe,
            knockback: Knockback(0),
            frozen: true,
            spent: false
        }]
    );
    assert_eq!(FREEZE_TIME, 250_000_000);
    assert_eq!(immobile_of(&registry, foe), Some(ImmobileTimer(Timer::new(FREEZE_TIME, false))));
    let mut running = Timer::new(FREEZE_TIME, false);
    running.tick(100);
    match &mut registry.slots[foe as usize] {
        Some(entry) => match &mut entry.record {
            Record::Enemy(data) => data.immobile = Some(ImmobileTimer(running)),
            _ => unreachable!(),
        },
        None => unreachable!(),
    }
    let outcomes =
        resolve_collisions(&mut registry, &mut coins, &HasIce(true), &vec![(second, foe)]);
    assert_eq!(
        outcomes,
        vec![Outcome::Hit {
            bullet: second,
            enemy: foe,
            knockback: Knockback(0),
            frozen: false,
            spent: false
        }]
    );
    assert_eq!(immobile_of(&registry, foe), Some(ImmobileTimer(running)));
}

#[test]
fn player_collects_coins_and_stale_pairs_are_dropped() {
    let mut registry = Registry::new();
    let mut coins = Coins(3);
    let player = make_player(&mut registry, 0, 0);
    let one = make_coin(&mut registry, 1);
    let five = make_coin(&mut registry, 5);
    let foe = make_enemy(&mut registry, 0, 0, Health::new(100));
    let pairs = vec![(one, player), (player, one), (player, five), (five, foe), (one, foe)];
    let outcomes = resolve_collisions(&mut registry, &mut coins, &HasIce(false), &pairs);
    assert_eq!(
        outcomes,
        vec![
            Outcome::Collected { coin: one, value: 1 },
            Outcome::Ignored,
            Outcome::Collected { coin: five, value: 5 },
            Outcome::Ignored,
            Outcome::Ignored,
        ]
    );
    assert_eq!(coins, Coins(9));
    assert!(!registry.contains(one));
    assert!(!registry.contains(five));
    assert!(registry.contains(player));
}

#[test]
fn purse_saturates_at_the_largest_number() {
    let mut registry = Registry::new();
    let mut coins = Coins(u32::MAX - 1);
    let player = make_player(&mut registry, 0, 0);
    let coin = make_coin(&mut registry, 7);
    resolve_collisions(&mut registry, &mut coins, &HasIce(false), &vec![(coin, player)]);
    assert_eq!(coins, Coins(u32::MAX));
}

#[test]
fn unrelated_and_unknown_pairs_are_ignored() {
    let mut registry = Registry::new();
    let mut coins = Coins(0);
    let player = make_player(&mut registry, 0, 0);
    let foe = make_enemy(&mut registry, 0, 0, Health::new(100));
    let other = make_enemy(&mut registry, 0, 0, Health::new(100));
    let bullet = make_bullet(&mut registry, 1, 50, 0);
    let shot = make_bullet(&mut registry, 1, 50, 0);
    let coin = make_coin(&mut registry, 1);
    let pairs = vec![
        (player, foe),
        (foe, other),
        (bullet, shot),
        (bullet, player),
        (bullet, coin),
        (bullet, bullet),
        (99, bullet),
        (coin, 99),
        (98, 99),
    ];
    let outcomes = resolve_collisions(&mut registry, &mut coins, &HasIce(false), &pairs);
    assert_eq!(outcomes, vec![Outcome::Ignored; 9]);
    assert_eq!(registry.health(foe), Some(Health(100, 100)));
    assert_eq!(registry.pierce(bullet), Some(Pierce(1)));
    assert!(registry.contains(coin));
    assert_eq!(coins, Coins(0));
}

#[test]
fn destroyed_bullet_is_stale_for_later_batches() {
    let mut registry = Registry::new();
    let mut coins = Coins(0);
    let a = make_enemy(&mut registry, 0, 0, Health::new(100));
    let b = make_enemy(&mut registry, 0, 0, Health::new(100));
    let bullet = make_bullet(&mut registry, 1, 50, 0);
    resolve_collisions(&mut registry, &mut coins, &HasIce(false), &vec![(bullet, a)]);
    let later =
        resolve_collisions(&mut registry, &mut coins, &HasIce(false), &vec![(bullet, b)]);
    assert_eq!(later, vec![Outcome::Ignored]);
    assert_eq!(registry.health(b), Some(Health(100, 100)));
}

#[test]
fn resolve_pair_uses_and_extends_the_handled_set() {
    let mut registry = Registry::new();
    let mut coins = Coins(0);
    let mut handled = IdSet::new();
    let foe = make_enemy(&mut registry, 0, 0, Health::new(100));
    let bullet = make_bullet(&mut registry, 2, 50, 0);
    let other = make_bullet(&mut registry, 2, 50, 0);
    handled.insert(other);
    let skipped = resolve_pair(&mut registry, &mut coins, &mut handled, false, other, foe);
    assert_eq!(skipped, Outcome::Ignored);
    let hit = resolve_pair(&mut registry, &mut coins, &mut handled, false, foe, bullet);
    assert!(matches!(hit, Outcome::Hit { .. }));
    assert!(handled.contains(foe));
    assert!(handled.contains(bullet));
}

#[test]
fn death_sweep_spares_the_living_and_the_player_and_runs_once() {
    let mut registry = Registry::new();
    let player = registry.spawn(Entry {
        position: Position { x: 1, y: 2 },
        body: Body::new(BodyMode::Fixed, None, None),
        record: Record::Player(PlayerData { health: Health(0, 200) }),
    });
    let alive = make_enemy(&mut registry, 10, 10, Health(1, 100));
    let dead = make_enemy(&mut registry, 20, 20, Health(0, 100));
    let gone = make_enemy(&mut registry, 30, 30, Health(-7, 100));
    registry.despawn(gone);
    let also = make_enemy(&mut registry, 40, 40, Health(-1, 100));
    let drops = death_sweep(&mut registry, None);
    assert_eq!(
        drops,
        vec![
            Drop { enemy: dead, coin: 5, at: Position { x: 20, y: 20 }, toward: None, speed: 500 },
            Drop { enemy: also, coin: 6, at: Position { x: 40, y: 40 }, toward: None, speed: 500 },
        ]
    );
    assert!(registry.contains(player));
    assert!(registry.contains(alive));
    assert!(!registry.contains(dead));
    assert!(!registry.contains(also));
    assert_eq!(registry.kind(5), Some(EntityKind::Coin));
    assert_eq!(registry.kind(6), Some(EntityKind::Coin));
    assert_eq!(registry.body(6), Some(Body::new(BodyMode::Kinematic, None, None)));
    let again = death_sweep(&mut registry, None);
    assert!(again.is_empty());
    assert_eq!(registry.issued(), 7);
}

#[test]
fn bullets_beyond_the_field_are_removed() {
    let mut registry = Registry::new();
    let spots = [(0, 0), (801, 0), (800, 0), (-801, 5), (3, 601), (3, -601), (800, -600)];
    let mut bullets = Vec::new();
    for (x, y) in spots {
        let id = make_bullet(&mut registry, 1, 1, 0);
        registry.set_position(id, Position { x, y });
        bullets.push(id);
    }
    let foe = make_enemy(&mut registry, 5000, 5000, Health::new(10));
    let gone = despawn_offscreen(&mut registry, 800, 600);
    assert_eq!(gone, vec![bullets[1], bullets[3], bullets[4], bullets[5]]);
    for (index, id) in bullets.iter().enumerate() {
        assert_eq!(registry.contains(*id), ![1, 3, 4, 5].contains(&index));
    }
    assert!(registry.contains(foe));
    assert!(despawn_offscreen(&mut registry, 800, 600).is_empty());
}
