use tank_shmup::components::{
    AttackTimer, Damage, EntityKind, Health, ImmobileTimer, Position, Vector,
};
use tank_shmup::enemy::{
    damage_player, handle_freeze, new_enemy, random_along, spawn_enemies, spawn_position,
    Difficulty, DifficultyConfig, EnemySpawnPos, ATTACK_INTERVAL, ATTACK_RANGE,
};
use tank_shmup::registry::{Body, BodyMode, EnemyData, Entry, PlayerData, Record, Registry};
use tank_shmup::resources::{EnemyScale, ScaleTimer, SpawnTimer};
use tank_shmup::timer::Timer;

const SECOND: u64 = 1_000_000_000;

fn make_player(registry: &mut Registry, health: i64) -> u64 {
    registry.spawn(Entry {
        position: Position { x: 0, y: 0 },
        body: Body::new(BodyMode::Fixed, None, None),
        record: Record::Player(PlayerData { health: Health::new(health) }),
    })
}

fn make_enemy(registry: &mut Registry, x: i32, y: i32, damage: u32) -> u64 {
    registry.spawn(Entry {
        position: Position { x, y },
        body: Body::new(
            BodyMode::Dynamic,
            Some(Vector { x: 11, y: 12 }),
            Some(Vector { x: 13, y: 14 }),
        ),
        record: Record::Enemy(EnemyData {
            health: Health::new(100),
            damage: Damage(damage),
            attack: AttackTimer(Timer::new(ATTACK_INTERVAL, true)),
            immobile: None,
        }),
    })
}

fn enemy_data(registry: &Registry, id: u64) -> EnemyData {
    match &registry.get(id).unwrap().record {
        Record::Enemy(data) => *data,
        _ => unreachable!(),
    }
}

fn freeze(registry: &mut Registry, id: u64, timer: Timer) {
    match &mut registry.slots[id as usize] {
        Some(entry) => match &mut entry.record {
            Record::Enemy(data) => data.immobile = Some(ImmobileTimer(timer)),
            _ => unreachable!(),
        },
        None => unreachable!(),
    }
}

#[test]
fn spawn_zone_from_index() {
    assert_eq!(EnemySpawnPos::from_index(0), Some(EnemySpawnPos::Up));
    assert_eq!(EnemySpawnPos::from_index(1), Some(EnemySpawnPos::Down));
    assert_eq!(EnemySpawnPos::from_index(2), Some(EnemySpawnPos::Left));
    assert_eq!(EnemySpawnPos::from_index(3), Some(EnemySpawnPos::Right));
    assert_eq!(EnemySpawnPos::from_index(4), None);
    assert_eq!(EnemySpawnPos::from_index(-1), None);
}

#[test]
fn sampled_zones_cover_all_four_edges() {
    let mut seen = [false; 4];
    for _ in 0..400 {
        match EnemySpawnPos::sample() {
            EnemySpawnPos::Up => seen[0] = true,
            EnemySpawnPos::Down => seen[1] = true,
            EnemySpawnPos::Left => seen[2] = true,
            EnemySpawnPos::Right => seen[3] = true,
        }
    }
    assert_eq!(seen, [true; 4]);
}

#[test]
fn spawn_position_on_each_edge() {
    assert_eq!(
        spawn_position(EnemySpawnPos::Up, 17, 1280, 720),
        Position { x: 17, y: -360 }
    );
    assert_eq!(
        spawn_position(EnemySpawnPos::Down, -17, 1280, 720),
        Position { x: -17, y: 360 }
    );
    assert_eq!(
        spawn_position(EnemySpawnPos::Left, 5, 1280, 720),
        Position { x: -640, y: 5 }
    );
    assert_eq!(
        spawn_position(EnemySpawnPos::Right, 5, 1281, 721),
        Position { x: 640, y: 5 }
    );
    assert_eq!(
        spawn_position(EnemySpawnPos::Up, 0, u32::MAX, u32::MAX),
        Position { x: 0, y: -i32::MAX }
    );
}

#[test]
fn random_along_stays_on_the_edge() {
    let mut low = false;
    let mut high = false;
    for _ in 0..2000 {
        let along = random_along(7);
        assert!((-3..3).contains(&along));
        low |= along < 0;
        high |= along > 0;
    }
    assert!(low && high);
    assert_eq!(random_along(0), 0);
    assert_eq!(random_along(1), 0);
    let wide = random_along(u32::MAX);
    assert!(wide >= -i32::MAX && wide < i32::MAX);
}

#[test]
fn new_enemy_scales_health_and_damage() {
    let at = Position { x: 1, y: 2 };
    let plain = new_enemy(at, EnemyScale(1_000_000));
    assert_eq!(plain.position, at);
    assert_eq!(
        plain.body,
        Body::new(BodyMode::Dynamic, Some(Vector { x: 0, y: 0 }), Some(Vector { x: 0, y: 0 }))
    );
    match plain.record {
        Record::Enemy(data) => {
            assert_eq!(data.health, Health(100, 100));
            assert_eq!(data.damage, Damage(10));
            assert_eq!(data.attack, AttackTimer(Timer::new(500_000_000, true)));
            assert_eq!(data.immobile, None);
        }
        _ => unreachable!(),
    }
    match new_enemy(at, EnemyScale(1_257_000)).record {
        Record::Enemy(data) => {
            assert_eq!(data.health, Health(125, 125));
            assert_eq!(data.damage, Damage(12));
        }
        _ => unreachable!(),
    }
    match new_enemy(at, EnemyScale(u64::MAX)).record {
        Record::Enemy(data) => {
            assert_eq!(data.health, Health::new(1_844_674_407_370_955));
            assert_eq!(data.damage, Damage(u32::MAX));
        }
        _ => unreachable!(),
    }
}

#[test]
fn standard_difficulty_config() {
    assert_eq!(
        DifficultyConfig::default(),
        DifficultyConfig {
            growth_num: 1005,
            growth_den: 1000,
            ramp_num: 101,
            ramp_den: 100,
            scale_cap: u64::MAX,
            interval_floor: 0,
        }
    );
    let start = Difficulty::new(DifficultyConfig::default());
    assert_eq!(start.scale, EnemyScale(1_000_000));
    assert_eq!(start.scale_timer, ScaleTimer(Timer::new(SECOND, true)));
    assert_eq!(start.spawn_timer, SpawnTimer(Timer::new(SECOND, true)));
}

#[test]
fn difficulty_steps_by_exact_factors() {
    let config = DifficultyConfig::default();
    assert_eq!(config.grow(EnemyScale(1_000_000)), EnemyScale(1_005_000));
    assert_eq!(config.grow(EnemyScale(1_005_000)), EnemyScale(1_010_025));
    assert_eq!(config.grow(EnemyScale(1_010_025)), EnemyScale(1_015_075));
    assert_eq!(config.tighten(SECOND), 990_099_009);
    assert_eq!(config.tighten(990_099_009), 980_296_048);
    assert_eq!(config.tighten(1), 0);
    assert_eq!(config.tighten(0), 0);
    assert_eq!(config.grow(EnemyScale(u64::MAX)), EnemyScale(u64::MAX));
}

#[test]
fn difficulty_respects_cap_and_floor() {
    let config = DifficultyConfig {
        growth_num: 2,
        growth_den: 1,
        ramp_num: 2,
        ramp_den: 1,
        scale_cap: 3_000_000,
        interval_floor: 300_000_000,
    };
    assert_eq!(config.grow(EnemyScale(1_000_000)), EnemyScale(2_000_000));
    assert_eq!(config.grow(EnemyScale(2_000_000)), EnemyScale(3_000_000));
    assert_eq!(config.grow(EnemyScale(3_000_000)), EnemyScale(3_000_000));
    assert_eq!(config.tighten(SECOND), 500_000_000);
    assert_eq!(config.tighten(500_000_000), 300_000_000);
    assert_eq!(config.tighten(300_000_000), 300_000_000);
}

#[test]
fn difficulty_is_monotone_over_a_session() {
    let mut difficulty = Difficulty::new(DifficultyConfig::default());
    let mut scale = difficulty.scale.0;
    let mut interval = difficulty.spawn_timer.0.duration();
    let mut spawns = 0;
    for _ in 0..600 {
        if difficulty.tick(100_000_000) {
            spawns += 1;
        }
        assert!(difficulty.scale.0 >= scale);
        assert!(difficulty.spawn_timer.0.duration() <= interval);
        scale = difficulty.scale.0;
        interval = difficulty.spawn_timer.0.duration();
    }
    assert!(scale > 1_000_000);
    assert!(interval < SECOND);
    assert!(spawns >= 60);
    difficulty.reset();
    assert_eq!(difficulty, Difficulty::new(DifficultyConfig::default()));
}

#[test]
fn difficulty_tick_steps_then_spawns() {
    let mut difficulty = Difficulty::new(DifficultyConfig::default());
    assert!(!difficulty.tick(SECOND - 1));
    assert_eq!(difficulty.scale, EnemyScale(1_000_000));
    assert!(difficulty.tick(1));
    assert_eq!(difficulty.scale, EnemyScale(1_005_000));
    assert_eq!(difficulty.spawn_timer.0.duration(), 990_099_009);
    assert_eq!(difficulty.spawn_timer.0.elapsed(), SECOND - 990_099_009);
    assert_eq!(difficulty.scale_timer.0.elapsed(), 0);
}

#[test]
fn enemies_arrive_on_the_edge_when_due() {
    let mut difficulty = Difficulty::new(DifficultyConfig::default());
    let mut registry = Registry::new();
    assert_eq!(spawn_enemies(&mut difficulty, &mut registry, SECOND / 2, 1280, 720), None);
    assert_eq!(registry.issued(), 0);
    for round in 0..50u64 {
        difficulty.spawn_timer.0.set_elapsed(0);
        let interval = difficulty.spawn_timer.0.duration();
        let arrived = spawn_enemies(&mut difficulty, &mut registry, interval, 1280, 720);
        assert_eq!(arrived, Some(round));
        assert_eq!(registry.kind(round), Some(EntityKind::Enemy));
        let at = registry.position(round).unwrap();
        let on_row = (at.y == -360 || at.y == 360) && (-640..640).contains(&at.x);
        let on_column = (at.x == -640 || at.x == 640) && (-360..360).contains(&at.y);
        assert!(on_row || on_column);
        let data = enemy_data(&registry, round);
        let scale = difficulty.scale.0 as u128;
        assert_eq!(data.health, Health::new((100 * scale / 1_000_000) as i64));
        assert_eq!(data.damage, Damage((10 * scale / 1_000_000) as u32));
    }
}

#[test]
fn enemies_arrive_on_a_field_without_size() {
    let mut difficulty = Difficulty::new(DifficultyConfig::default());
    let mut registry = Registry::new();
    let arrived = spawn_enemies(&mut difficulty, &mut registry, SECOND, 0, 1);
    assert_eq!(arrived, Some(0));
    assert_eq!(registry.position(0), Some(Position { x: 0, y: 0 }));
}

#[test]
fn freeze_holds_the_enemy_and_wears_off() {
    let mut registry = Registry::new();
    let frozen = make_enemy(&mut registry, 0, 0, 10);
    let free = make_enemy(&mut registry, 0, 0, 10);
    let late = make_enemy(&mut registry, 0, 0, 10);
    freeze(&mut registry, frozen, Timer::new(250_000_000, false));
    freeze(&mut registry, late, Timer::new(400_000_000, false));
    let thawed = handle_freeze(&mut registry, 100_000_000);
    assert!(thawed.is_empty());
    let mut expected = Timer::new(250_000_000, false);
    expected.tick(100_000_000);
    assert_eq!(enemy_data(&registry, frozen).immobile, Some(ImmobileTimer(expected)));
    let body = registry.body(frozen).unwrap();
    assert_eq!(body.velocity, Some(Vector { x: 0, y: 0 }));
    assert_eq!(body.force, Some(Vector { x: 0, y: 0 }));
    let untouched = registry.body(free).unwrap();
    assert_eq!(untouched.velocity, Some(Vector { x: 11, y: 12 }));
    assert_eq!(untouched.force, Some(Vector { x: 13, y: 14 }));
    assert_eq!(enemy_data(&registry, free).immobile, None);
    let thawed = handle_freeze(&mut registry, 150_000_000);
    assert_eq!(thawed, vec![frozen]);
    assert_eq!(enemy_data(&registry, frozen).immobile, None);
    assert!(enemy_data(&registry, late).immobile.is_some());
    let thawed = handle_freeze(&mut registry, 150_000_000);
    assert_eq!(thawed, vec![late]);
    assert!(handle_freeze(&mut registry, 1_000_000_000).is_empty());
}

#[test]
fn enemies_in_range_attack_on_their_timer() {
    let mut registry = Registry::new();
    let near = make_enemy(&mut registry, 60, 80, 10);
    let player = make_player(&mut registry, 200);
    let far = make_enemy(&mut registry, 61, 80, 1000);
    let also = make_enemy(&mut registry, -100, 0, 7);
    assert_eq!(ATTACK_RANGE, 100);
    let left = damage_player(&mut registry, player, 499_999_999);
    assert_eq!(left, Some(Health(200, 200)));
    assert_eq!(enemy_data(&registry, near).attack.0.elapsed(), 499_999_999);
    assert_eq!(enemy_data(&registry, far).attack.0.elapsed(), 0);
    let left = damage_player(&mut registry, player, 1);
    assert_eq!(left, Some(Health(183, 200)));
    assert_eq!(registry.health(player), Some(Health(183, 200)));
    assert_eq!(enemy_data(&registry, near).attack.0.elapsed(), 0);
    assert_eq!(enemy_data(&registry, also).attack.0.elapsed(), 0);
    assert_eq!(enemy_data(&registry, far).attack.0.elapsed(), 0);
    let left = damage_player(&mut registry, player, 1);
    assert_eq!(left, Some(Health(183, 200)));
}

#[test]
fn attacks_on_a_missing_player_do_nothing() {
    let mut registry = Registry::new();
    let foe = make_enemy(&mut registry, 0, 0, 10);
    assert_eq!(damage_player(&mut registry, 5, 1_000_000_000), None);
    assert_eq!(damage_player(&mut registry, foe, 1_000_000_000), None);
    assert_eq!(enemy_data(&registry, foe).attack.0.elapsed(), 0);
}
