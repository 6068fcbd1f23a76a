use tank_shmup::collision::Outcome;
use tank_shmup::components::{EntityKind, Health, Knockback, Pierce, Position};
use tank_shmup::enemy::{new_enemy, Difficulty, DifficultyConfig};
use tank_shmup::game_over::{high_score, reset_stats, HighScore};
use tank_shmup::player::{new_bullet, Barrel, Ready};
use tank_shmup::registry::{BodyMode, Record};
use tank_shmup::resources::{BulletType, Coins, EnemyScale};
use tank_shmup::simulation::Simulation;
use tank_shmup::skill_tree::{standard_tree, SkillTree, Upgrades};
use tank_shmup::state::{GameEvent, GameState};
use tank_shmup::weapon::{Upgrade, Weapon};

const SECOND: u64 = 1_000_000_000;

fn playing() -> Simulation {
    let mut simulation = Simulation::new(DifficultyConfig::default());
    simulation.handle(GameEvent::Loaded);
    simulation.handle(GameEvent::Play);
    simulation
}

#[test]
fn high_score_is_the_larger_of_stored_and_final_coins() {
    assert_eq!(
        high_score(Some(100), &Coins(150)),
        HighScore { value: 150, write: true }
    );
    assert_eq!(
        high_score(Some(100), &Coins(100)),
        HighScore { value: 100, write: false }
    );
    assert_eq!(
        high_score(Some(100), &Coins(30)),
        HighScore { value: 100, write: false }
    );
    assert_eq!(high_score(None, &Coins(0)), HighScore { value: 0, write: true });
    assert_eq!(high_score(None, &Coins(7)), HighScore { value: 7, write: true });
}

#[test]
fn game_over_with_more_coins_than_the_stored_score_persists_them() {
    let mut simulation = playing();
    simulation.coins = Coins(150);
    let player = simulation.player.unwrap();
    simulation.registry.set_health(player, Health(0, 200));
    let report = simulation.advance(1, 1280, 720);
    assert!(report.player_down);
    simulation.handle(GameEvent::PlayerDied);
    assert_eq!(simulation.state, GameState::GameOver);
    let score = high_score(Some(100), &simulation.coins);
    assert_eq!(score, HighScore { value: 150, write: true });
    assert!(!simulation.registry.contains(player));
    assert_eq!(simulation.player, None);
}

#[test]
fn state_machine_follows_the_phases() {
    let events = [
        GameEvent::Loaded,
        GameEvent::Play,
        GameEvent::ToggleSkillTree,
        GameEvent::PlayerDied,
        GameEvent::Back,
    ];
    let states = [
        GameState::Loading,
        GameState::Menu,
        GameState::Playing,
        GameState::SkillTree,
        GameState::GameOver,
    ];
    for state in states {
        for event in events {
            let expected = match (state, event) {
                (GameState::Loading, GameEvent::Loaded) => GameState::Menu,
                (GameState::Menu, GameEvent::Play) => GameState::Playing,
                (GameState::Playing, GameEvent::ToggleSkillTree) => GameState::SkillTree,
                (GameState::SkillTree, GameEvent::ToggleSkillTree) => GameState::Playing,
                (GameState::Playing, GameEvent::PlayerDied) => GameState::GameOver,
                (GameState::GameOver, GameEvent::Back) => GameState::Menu,
                _ => state,
            };
            assert_eq!(state.next(event), expected);
        }
    }
}

#[test]
fn new_simulation_is_loading_with_defaults() {
    let simulation = Simulation::new(DifficultyConfig::default());
    assert_eq!(simulation.state, GameState::Loading);
    assert_eq!(simulation.registry.issued(), 0);
    assert_eq!(simulation.player, None);
    assert_eq!(simulation.coins, Coins(0));
    assert_eq!(simulation.weapon, Weapon::default());
    assert_eq!(simulation.barrel, Barrel::new());
    assert_eq!(simulation.difficulty, Difficulty::new(DifficultyConfig::default()));
    assert_eq!(simulation.defs, standard_tree());
    assert!(simulation.tree.is_none());
}

#[test]
fn starting_a_run_spawns_the_one_player() {
    let mut simulation = Simulation::new(DifficultyConfig::default());
    simulation.handle(GameEvent::Play);
    assert_eq!(simulation.state, GameState::Loading);
    simulation.handle(GameEvent::Loaded);
    assert_eq!(simulation.state, GameState::Menu);
    assert_eq!(simulation.registry.issued(), 0);
    simulation.handle(GameEvent::Play);
    assert_eq!(simulation.state, GameState::Playing);
    assert_eq!(simulation.player, Some(0));
    assert_eq!(simulation.registry.kind(0), Some(EntityKind::Player));
    assert_eq!(simulation.registry.health(0), Some(Health(200, 200)));
    simulation.handle(GameEvent::Play);
    assert_eq!(simulation.registry.issued(), 1);
}

#[test]
fn steps_outside_play_do_nothing() {
    let mut simulation = Simulation::new(DifficultyConfig::default());
    simulation.handle(GameEvent::Loaded);
    let report = simulation.advance(SECOND, 1280, 720);
    assert!(report.arrived.is_none());
    assert!(report.thawed.is_empty());
    assert!(report.player_health.is_none());
    assert!(!report.player_down);
    assert_eq!(simulation.difficulty, Difficulty::new(DifficultyConfig::default()));
    assert_eq!(simulation.shoot(true, true), None);
    assert_eq!(simulation.barrel, Barrel::new());
    let resolution = simulation.resolve(&vec![(0, 1)]);
    assert!(resolution.outcomes.is_empty());
    assert!(resolution.drops.is_empty());
    assert!(simulation.cull(10, 10).is_empty());
    simulation.coins = Coins(500);
    assert!(!simulation.purchase(0));
    assert_eq!(simulation.coins, Coins(500));
    assert_eq!(simulation.registry.issued(), 0);
}

#[test]
fn scale_rises_in_play_and_resets_on_menu_entry() {
    let mut simulation = playing();
    let mut last = simulation.difficulty.scale.0;
    assert_eq!(last, 1_000_000);
    for _ in 0..30 {
        simulation.advance(SECOND / 4, 1280, 720);
        assert!(simulation.difficulty.scale.0 >= last);
        last = simulation.difficulty.scale.0;
    }
    assert!(last > 1_000_000);
    simulation.handle(GameEvent::ToggleSkillTree);
    assert_eq!(simulation.difficulty.scale.0, last);
    simulation.advance(SECOND, 1280, 720);
    assert_eq!(simulation.difficulty.scale.0, last);
    simulation.handle(GameEvent::ToggleSkillTree);
    assert_eq!(simulation.difficulty.scale.0, last);
    simulation.handle(GameEvent::PlayerDied);
    assert_eq!(simulation.state, GameState::GameOver);
    assert_eq!(simulation.difficulty.scale.0, last);
    simulation.handle(GameEvent::Back);
    assert_eq!(simulation.state, GameState::Menu);
    assert_eq!(simulation.difficulty, Difficulty::new(DifficultyConfig::default()));
    assert_eq!(simulation.difficulty.scale, EnemyScale(1_000_000));
}

#[test]
fn returning_to_the_menu_resets_every_setting() {
    let mut simulation = playing();
    simulation.coins = Coins(300);
    simulation.handle(GameEvent::ToggleSkillTree);
    assert!(!simulation.purchase(1));
    assert!(simulation.purchase(0));
    assert!(simulation.purchase(2));
    assert_eq!(simulation.coins, Coins(260));
    assert_eq!(simulation.weapon.bullet_type, BulletType::Rocket);
    simulation.handle(GameEvent::ToggleSkillTree);
    simulation.barrel = Barrel { frame: 1, ready: Ready(true) };
    simulation.handle(GameEvent::PlayerDied);
    assert_eq!(simulation.coins, Coins(260));
    assert!(simulation.upgrades.contains(0));
    simulation.handle(GameEvent::Back);
    assert_eq!(simulation.coins, Coins(0));
    assert_eq!(simulation.weapon, Weapon::default());
    assert_eq!(simulation.barrel, Barrel::new());
    assert!(!simulation.upgrades.contains(0));
    assert!(!simulation.upgrades.contains(2));
    assert!(simulation.tree.is_none());
    simulation.handle(GameEvent::Play);
    assert_eq!(simulation.player, Some(1));
    simulation.coins = Coins(20);
    simulation.handle(GameEvent::ToggleSkillTree);
    for (place, node) in simulation.tree.as_ref().unwrap().nodes.iter().enumerate() {
        assert_eq!(node.locked, place % 2 == 1);
        assert!(!node.purchased);
    }
    assert!(simulation.purchase(0));
}

#[test]
fn reset_stats_restores_the_defaults() {
    let mut coins = Coins(9);
    let mut weapon = Weapon::default();
    weapon.apply(Upgrade::Rocket);
    let mut barrel = Barrel { frame: 1, ready: Ready(true) };
    let mut difficulty = Difficulty::new(DifficultyConfig::default());
    difficulty.tick(SECOND);
    let mut upgrades = Upgrades::default();
    let mut tree = SkillTree::open(&standard_tree(), &upgrades);
    let mut purse = Coins(20);
    assert!(tree.purchase(0, &mut purse, &mut weapon, &mut upgrades));
    reset_stats(&mut coins, &mut weapon, &mut barrel, &mut difficulty, &mut upgrades);
    assert_eq!(coins, Coins(0));
    assert_eq!(weapon, Weapon::default());
    assert_eq!(barrel, Barrel::new());
    assert_eq!(difficulty, Difficulty::new(DifficultyConfig::default()));
    assert!(!upgrades.contains(0));
}

#[test]
fn overlay_halts_the_field_and_keeps_purchases_between_visits() {
    let mut simulation = playing();
    let foe = simulation
        .registry
        .spawn(new_enemy(Position { x: 50, y: 0 }, EnemyScale(1_000_000)));
    simulation.coins = Coins(25);
    simulation.handle(GameEvent::ToggleSkillTree);
    assert_eq!(simulation.state, GameState::SkillTree);
    assert_eq!(simulation.registry.body(foe).unwrap().mode, BodyMode::Fixed);
    assert!(simulation.purchase(2));
    assert!(!simulation.purchase(0));
    assert_eq!(simulation.coins, Coins(5));
    let shown = simulation.tree.as_ref().unwrap().nodes.clone();
    simulation.handle(GameEvent::ToggleSkillTree);
    assert_eq!(simulation.state, GameState::Playing);
    assert!(simulation.tree.is_none());
    assert_eq!(simulation.registry.body(foe).unwrap().mode, BodyMode::Dynamic);
    assert!(!simulation.purchase(0));
    simulation.handle(GameEvent::ToggleSkillTree);
    assert_eq!(simulation.tree.as_ref().unwrap().nodes, shown);
    assert!(shown[2].purchased && shown[3].locked && !shown[0].locked);
}

#[test]
fn a_frame_of_play_resolves_hits_and_drops_coins() {
    let mut simulation = playing();
    let player = simulation.player.unwrap();
    let foe = simulation
        .registry
        .spawn(new_enemy(Position { x: 300, y: 0 }, EnemyScale(1_000_000)));
    simulation.registry.set_health(foe, Health(40, 100));
    simulation.weapon.damage = tank_shmup::components::Damage(50);
    let bullet = simulation
        .registry
        .spawn(new_bullet(&simulation.weapon, Position { x: 290, y: 0 }));
    let resolution = simulation.resolve(&vec![(bullet, foe)]);
    assert_eq!(
        resolution.outcomes,
        vec![Outcome::Hit { bullet, enemy: foe, knockback: Knockback(0), frozen: false, spent: true }]
    );
    assert_eq!(resolution.drops.len(), 1);
    let drop = resolution.drops[0];
    assert_eq!(drop.enemy, foe);
    assert_eq!(drop.at, Position { x: 300, y: 0 });
    assert_eq!(drop.toward, Some(Position { x: 0, y: 0 }));
    assert!(!simulation.registry.contains(foe));
    assert!(!simulation.registry.contains(bullet));
    assert_eq!(simulation.registry.kind(drop.coin), Some(EntityKind::Coin));
    let resolution = simulation.resolve(&vec![(drop.coin, player), (player, drop.coin)]);
    assert_eq!(
        resolution.outcomes,
        vec![Outcome::Collected { coin: drop.coin, value: 1 }, Outcome::Ignored]
    );
    assert_eq!(simulation.coins, Coins(1));
    assert!(resolution.drops.is_empty());
}

#[test]
fn a_frame_of_play_fires_advances_and_culls() {
    let mut simulation = playing();
    assert_eq!(simulation.shoot(false, true), None);
    let report = simulation.advance(125_000_000, 1280, 720);
    assert!(report.arrived.is_none());
    assert_eq!(report.player_health, Some(Health(200, 200)));
    assert!(!report.player_down);
    assert_eq!(simulation.barrel.frame, 1);
    assert_eq!(simulation.shoot(false, true), None);
    simulation.advance(125_000_000, 1280, 720);
    assert_eq!(simulation.barrel.frame, 0);
    let shot = simulation.shoot(false, true).unwrap();
    assert_eq!(shot.bullet, 1);
    assert_eq!(simulation.registry.pierce(shot.bullet), Some(Pierce(1)));
    assert!(simulation.cull(1280, 720).is_empty());
    simulation.registry.set_position(shot.bullet, Position { x: 1281, y: 0 });
    assert_eq!(simulation.cull(1280, 720), vec![shot.bullet]);
    assert!(!simulation.registry.contains(shot.bullet));
    let mut arrived = None;
    for _ in 0..8 {
        let report = simulation.advance(125_000_000, 1280, 720);
        if report.arrived.is_some() {
            arrived = report.arrived;
        }
    }
    let foe = arrived.unwrap();
    assert_eq!(simulation.registry.kind(foe), Some(EntityKind::Enemy));
    match &simulation.registry.get(foe).unwrap().record {
        Record::Enemy(data) => assert_eq!(data.health, Health(100, 100)),
        _ => unreachable!(),
    }
}
