//! The simulation: everything that belongs to the game, in one place, and
//! the steps that a frame is made of.
//!
//! Within a frame the steps come in this order: the trigger, the passing of
//! time, the collisions that the physics reported, and the removal of what
//! left the field. Each step does its work only in the phase it belongs to
//! and leaves everything as it is in any other.

use crate::collision::{resolve_collisions, resolved, Field, Outcome};
use crate::components::{EntityKind, Health, Position};
use crate::enemy::{
    all_thawing, assaulted, damage_player, handle_freeze, on_edge, recruit, spawn_enemies, thaws,
    Difficulty, DifficultyConfig,
};
use crate::game_over::reset_stats;
use crate::pause::{all_halted, all_released, pause, unpause};
use crate::player::{fresh_player, round, shoot, spawn_player, widest, Barrel, Shot, BULLET_SPEED};
use crate::registry::{cleared, is_kind, Entries, Registry};
use crate::resources::Coins;
use crate::skill_tree::{
    can_buy, opened, purchased, standard_defs, standard_tree, NodeDef, Shop, SkillTree,
    UpgradeNode, Upgrades,
};
use crate::state::{GameEvent, GameState};
use crate::sweep::{death_sweep, despawn_offscreen, swept, without_strays, Drop};
use crate::weapon::Weapon;
use vstd::prelude::*;

verus! {

/// Everything that belongs to the game.
pub struct Simulation {
    pub state: GameState,
    pub registry: Registry,
    /// The player's identifier, while a player is in play.
    pub player: Option<u64>,
    pub coins: Coins,
    pub weapon: Weapon,
    pub barrel: Barrel,
    pub difficulty: Difficulty,
    /// The upgrades bought in this run.
    pub upgrades: Upgrades,
    /// The definition of the skill tree.
    pub defs: Vec<NodeDef>,
    /// The skill tree, while it is open.
    pub tree: Option<SkillTree>,
}

/// What a [`Simulation`] stands for.
pub struct Run {
    pub state: GameState,
    pub entries: Entries,
    pub player: Option<u64>,
    pub coins: Coins,
    pub weapon: Weapon,
    pub barrel: Barrel,
    pub difficulty: Difficulty,
    pub bought: Set<u64>,
    pub defs: Seq<NodeDef>,
    pub tree: Option<Seq<UpgradeNode>>,
}

/// What passing time did.
pub struct Advance {
    /// The enemy that arrived, if one did.
    pub arrived: Option<u64>,
    /// The enemies whose freeze ended, in rising order.
    pub thawed: Vec<u64>,
    /// The health that the player is left with, if there is a player.
    pub player_health: Option<Health>,
    /// Whether the player has no health left, so that the run is over.
    pub player_down: bool,
}

/// What the collisions of a frame came to.
pub struct Resolution {
    /// What each reported pair came to, in the order of the pairs.
    pub outcomes: Vec<Outcome>,
    /// The coins that the enemies left behind which fell in this frame.
    pub drops: Vec<Drop>,
}

impl View for Simulation {
    type V = Run;

    open spec fn view(&self) -> Run {
        Run {
            state: self.state,
            entries: self.registry@,
            player: self.player,
            coins: self.coins,
            weapon: self.weapon,
            barrel: self.barrel,
            difficulty: self.difficulty,
            bought: self.upgrades@,
            defs: self.defs@,
            tree: match self.tree {
                Some(tree) => Some(tree.nodes@),
                None => None,
            },
        }
    }
}

impl Run {
    /// The run with every setting back at its start: an empty purse, the
    /// first weapon, the barrel at rest, the first difficulty, nothing
    /// bought, the skill tree closed.
    pub open spec fn reset(self) -> Run {
        Run {
            coins: Coins(0),
            weapon: Weapon::initial(),
            barrel: Barrel::idle(),
            difficulty: Difficulty::initial(self.difficulty.config),
            bought: Set::empty(),
            tree: None,
            ..self
        }
    }

    /// The run after an event.
    ///
    /// An event that the phase does not wait for changes nothing. Entering
    /// the menu resets every setting. Starting to play resets them too and
    /// puts the player into play. Opening the skill tree halts every entity
    /// but the player and shows the tree as the purchases make it; closing it
    /// lets the entities go. The end of a run takes every entity out of play;
    /// the purse stays, since it is the score.
    pub open spec fn handled(self, event: GameEvent) -> Run {
        let next = self.state.after(event);
        match (self.state, next) {
            (GameState::Loading, GameState::Menu) => Run { state: next, ..self.reset() },
            (GameState::GameOver, GameState::Menu) => Run { state: next, ..self.reset() },
            (GameState::Menu, GameState::Playing) => Run {
                state: next,
                entries: self.entries.push(Some(fresh_player())),
                player: Some(self.entries.len() as u64),
                ..self.reset()
            },
            (GameState::Playing, GameState::SkillTree) => Run {
                state: next,
                entries: all_halted(self.entries),
                tree: Some(opened(self.defs, self.bought)),
                ..self
            },
            (GameState::SkillTree, GameState::Playing) => Run {
                state: next,
                entries: all_released(self.entries),
                tree: None,
                ..self
            },
            (GameState::Playing, GameState::GameOver) => Run {
                state: next,
                entries: cleared(self.entries),
                player: None,
                ..self
            },
            _ => self,
        }
    }

    /// The entities after `delta` nanoseconds of attack on the player, if
    /// there is one.
    pub open spec fn beset(self, entries: Entries, delta: u64) -> Entries {
        match self.player {
            Some(player) => assaulted(entries, player, delta),
            None => entries,
        }
    }

    /// The place that dropped coins fly to: the player's, if there is one.
    pub open spec fn goal(self) -> Option<Position> {
        match self.player {
            Some(player) => if is_kind(self.entries, player, EntityKind::Player) {
                Some(self.entries[player as int].unwrap().position)
            } else {
                None
            },
            None => None,
        }
    }

    /// Whether the player is in play and has no health left.
    pub open spec fn player_down(self) -> bool {
        self.player matches Some(player) && is_kind(self.entries, player, EntityKind::Player)
            && self.entries[player as int].unwrap().record->Player_0.health.depleted()
    }
}

impl Simulation {
    /// The entities, the weapon and the difficulty are well formed.
    pub open spec fn wf(&self) -> bool {
        &&& self.registry.wf()
        &&& self.weapon.wf()
        &&& self.difficulty.wf()
    }

    /// A game that is still loading, with the standard skill tree.
    pub fn new(config: DifficultyConfig) -> (simulation: Simulation)
        ensures
            simulation@ == (Run {
                state: GameState::Loading,
                entries: Seq::empty(),
                player: None,
                coins: Coins(0),
                weapon: Weapon::initial(),
                barrel: Barrel::idle(),
                difficulty: Difficulty::initial(config),
                bought: Set::empty(),
                defs: standard_defs(),
                tree: None,
            }),
            config.wf() ==> simulation.wf(),
    {
        Simulation {
            state: GameState::Loading,
            registry: Registry::new(),
            player: None,
            coins: Coins::default(),
            weapon: Weapon::default(),
            barrel: Barrel::new(),
            difficulty: Difficulty::new(config),
            upgrades: Upgrades::default(),
            defs: standard_tree(),
            tree: None,
        }
    }

    /// Takes an event and moves to the phase that follows, doing what
    /// leaving the one and entering the other asks for.
    pub fn handle(&mut self, event: GameEvent)
        ensures
            final(self)@ == old(self)@.handled(event),
            old(self).wf() && old(self).difficulty.config.wf() ==> final(self).wf(),
    {
        let next = self.state.next(event);
        match (self.state, next) {
            (GameState::Loading, GameState::Menu) | (GameState::GameOver, GameState::Menu) => {
                reset_stats(
                    &mut self.coins,
                    &mut self.weapon,
                    &mut self.barrel,
                    &mut self.difficulty,
                    &mut self.upgrades,
                );
                self.tree = None;
            },
            (GameState::Menu, GameState::Playing) => {
                reset_stats(
                    &mut self.coins,
                    &mut self.weapon,
                    &mut self.barrel,
                    &mut self.difficulty,
                    &mut self.upgrades,
                );
                self.tree = None;
                let player = spawn_player(&mut self.registry);
                self.player = Some(player);
            },
            (GameState::Playing, GameState::SkillTree) => {
                pause(&mut self.registry);
                self.tree = Some(SkillTree::open(&self.defs, &self.upgrades));
            },
            (GameState::SkillTree, GameState::Playing) => {
                unpause(&mut self.registry);
                self.tree = None;
            },
            (GameState::Playing, GameState::GameOver) => {
                self.registry.despawn_all();
                self.player = None;
            },
            _ => {},
        }
        self.state = next;
    }

    /// The trigger. In play, a bullet leaves as [`shoot`] says; in any other
    /// phase nothing happens.
    pub fn shoot(&mut self, just_pressed: bool, pressed: bool) -> (shot: Option<Shot>)
        ensures
            old(self).state != GameState::Playing ==> shot.is_none() && final(self)@ == old(self)@,
            old(self).state == GameState::Playing ==> {
                &&& (final(self).barrel, final(self).weapon.shoot_timer.0) == old(self).barrel.pulled(
                    old(self).weapon.shoot_timer.0,
                    just_pressed,
                    pressed,
                )
                &&& final(self)@ == (Run {
                    entries: final(self)@.entries,
                    barrel: final(self).barrel,
                    weapon: Weapon {
                        shoot_timer: final(self).weapon.shoot_timer,
                        ..old(self).weapon
                    },
                    ..old(self)@
                })
                &&& shot.is_some() == (old(self).barrel.fires(
                    old(self).weapon.shoot_timer.0,
                    just_pressed,
                    pressed,
                ) && old(self)@.goal().is_some())
                &&& shot.is_none() ==> final(self)@.entries == old(self)@.entries
                &&& shot matches Some(fired) ==> {
                    &&& fired.bullet == old(self)@.entries.len()
                    &&& Some(fired.at) == old(self)@.goal()
                    &&& fired.bullet_type == old(self).weapon.bullet_type
                    &&& fired.speed == BULLET_SPEED
                    &&& -widest(old(self).weapon.spread) <= fired.angle <= widest(
                        old(self).weapon.spread,
                    )
                    &&& final(self)@.entries == old(self)@.entries.push(
                        Some(round(old(self).weapon, fired.at)),
                    )
                }
            },
            old(self).wf() ==> final(self).wf(),
    {
        if self.state != GameState::Playing {
            return None;
        }
        match self.player {
            Some(player) => shoot(
                &mut self.registry,
                &mut self.weapon,
                &mut self.barrel,
                player,
                just_pressed,
                pressed,
            ),
            None => {
                self.barrel.trigger(&mut self.weapon.shoot_timer, just_pressed, pressed);
                None
            },
        }
    }

    /// The passing of `delta` nanoseconds on a field `width` pixels wide and
    /// `height` pixels high.
    ///
    /// In play: the barrel and the shoot timer move on, the frozen enemies
    /// thaw, the enemies in range attack the player, the difficulty rises,
    /// and an enemy arrives at the edge of the field where one is due. In any
    /// other phase nothing happens.
    pub fn advance(&mut self, delta: u64, width: u32, height: u32) -> (report: Advance)
        ensures
            old(self).wf() ==> final(self).wf(),
            old(self).state != GameState::Playing ==> final(self)@ == old(self)@
                && report.arrived.is_none() && report.thawed@.len() == 0
                && report.player_health.is_none() && !report.player_down,
            old(self).state == GameState::Playing ==> {
                let pressed = old(self)@.beset(all_thawing(old(self)@.entries, delta), delta);
                &&& (final(self).barrel, final(self).weapon.shoot_timer.0) == old(
                    self,
                ).barrel.animated(old(self).weapon.shoot_timer.0, delta)
                &&& final(self).difficulty == old(self).difficulty.ticked(delta)
                &&& old(self).difficulty.wf() ==> final(self).difficulty.scale.0 >= old(
                    self,
                ).difficulty.scale.0 && final(self).difficulty.spawn_timer.0.duration <= old(
                    self,
                ).difficulty.spawn_timer.0.duration
                &&& final(self)@ == (Run {
                    entries: final(self)@.entries,
                    barrel: final(self).barrel,
                    weapon: Weapon {
                        shoot_timer: final(self).weapon.shoot_timer,
                        ..old(self).weapon
                    },
                    difficulty: final(self).difficulty,
                    ..old(self)@
                })
                &&& report.arrived.is_some() == final(self).difficulty.spawn_timer.0.due
                &&& report.arrived.is_none() ==> final(self)@.entries == pressed
                &&& report.arrived matches Some(id) ==> {
                    &&& id == pressed.len()
                    &&& final(self)@.entries.len() == pressed.len() + 1
                    &&& on_edge(final(self)@.entries[id as int].unwrap().position, width, height)
                    &&& final(self)@.entries == pressed.push(
                        Some(
                            recruit(
                                final(self)@.entries[id as int].unwrap().position,
                                final(self).difficulty.scale,
                            ),
                        ),
                    )
                }
                &&& forall|k: int, m: int|
                    0 <= k < m < report.thawed@.len() ==> report.thawed@[k] < report.thawed@[m]
                &&& forall|id: u64|
                    report.thawed@.contains(id) <==> id < old(self)@.entries.len() && thaws(
                        old(self)@.entries[id as int],
                        delta,
                    )
                &&& report.player_health == match old(self)@.goal() {
                    Some(_) => pressed[old(self).player.unwrap() as int].unwrap().record.health(),
                    None => None,
                }
                &&& report.player_down == (Run { entries: pressed, ..old(self)@ }).player_down()
            },
    {
        if self.state != GameState::Playing {
            return Advance {
                arrived: None,
                thawed: Vec::new(),
                player_health: None,
                player_down: false,
            };
        }
        self.barrel.animate(&mut self.weapon.shoot_timer, delta);
        let thawed = handle_freeze(&mut self.registry, delta);
        let player_health = match self.player {
            Some(player) => damage_player(&mut self.registry, player, delta),
            None => None,
        };
        let player_down = match player_health {
            Some(health) => health.is_depleted(),
            None => false,
        };
        let arrived = spawn_enemies(&mut self.difficulty, &mut self.registry, delta, width, height);
        Advance { arrived, thawed, player_health, player_down }
    }

    /// The collisions of a frame. In play, the reported pairs are resolved
    /// in order, and then every enemy without health leaves play and drops a
    /// coin that flies towards the player. In any other phase nothing
    /// happens.
    pub fn resolve(&mut self, pairs: &Vec<(u64, u64)>) -> (resolution: Resolution)
        ensures
            old(self).state != GameState::Playing ==> final(self)@ == old(self)@
                && resolution.outcomes@.len() == 0 && resolution.drops@.len() == 0,
            old(self).state == GameState::Playing ==> {
                let (field, outcomes) = resolved(
                    Field {
                        entries: old(self)@.entries,
                        coins: old(self).coins,
                        handled: Set::empty(),
                    },
                    old(self).weapon.has_ice.0,
                    pairs@,
                );
                let goal = (Run { entries: field.entries, ..old(self)@ }).goal();
                let (entries, drops) = swept(field.entries, goal, field.entries.len());
                &&& resolution.outcomes@ == outcomes
                &&& resolution.drops@ == drops
                &&& final(self)@ == (Run { entries, coins: field.coins, ..old(self)@ })
            },
            old(self).wf() ==> final(self).wf(),
    {
        if self.state != GameState::Playing {
            return Resolution { outcomes: Vec::new(), drops: Vec::new() };
        }
        let outcomes = resolve_collisions(
            &mut self.registry,
            &mut self.coins,
            &self.weapon.has_ice,
            pairs,
        );
        let goal = match self.player {
            Some(player) => match self.registry.get(player) {
                Some(entry) => match entry.record.kind() {
                    EntityKind::Player => Some(entry.position),
                    _ => None,
                },
                None => None,
            },
            None => None,
        };
        let drops = death_sweep(&mut self.registry, goal);
        Resolution { outcomes, drops }
    }

    /// The removal of what left the field. In play, every bullet beyond a
    /// field `width` pixels wide and `height` pixels high leaves play; the
    /// bullets that left are named in rising order. In any other phase
    /// nothing happens.
    pub fn cull(&mut self, width: u32, height: u32) -> (gone: Vec<u64>)
        ensures
            old(self).state != GameState::Playing ==> final(self)@ == old(self)@ && gone@.len()
                == 0,
            old(self).state == GameState::Playing ==> {
                &&& final(self)@ == (Run {
                    entries: without_strays(old(self)@.entries, width, height),
                    ..old(self)@
                })
                &&& forall|k: int, m: int| 0 <= k < m < gone@.len() ==> gone@[k] < gone@[m]
                &&& forall|id: u64|
                    gone@.contains(id) <==> id < old(self)@.entries.len()
                        && crate::sweep::stray(old(self)@.entries[id as int], width, height)
            },
            old(self).wf() ==> final(self).wf(),
    {
        if self.state != GameState::Playing {
            return Vec::new();
        }
        despawn_offscreen(&mut self.registry, width, height)
    }

    /// An attempt to buy the upgrade at place `node`. While the skill tree
    /// is open the attempt goes as [`SkillTree::purchase`] says; in any other
    /// phase nothing happens.
    pub fn purchase(&mut self, node: usize) -> (bought: bool)
        ensures
            old(self)@.tree.is_none() || old(self).state != GameState::SkillTree ==> !bought
                && final(self)@ == old(self)@,
            old(self).state == GameState::SkillTree ==> (old(self)@.tree matches Some(nodes) ==> {
                let shop = purchased(
                    Shop {
                        nodes,
                        coins: old(self).coins,
                        weapon: old(self).weapon,
                        bought: old(self)@.bought,
                    },
                    node as int,
                );
                &&& bought == can_buy(nodes, node as int, old(self).coins)
                &&& final(self)@ == (Run {
                    tree: Some(shop.nodes),
                    coins: shop.coins,
                    weapon: shop.weapon,
                    bought: shop.bought,
                    ..old(self)@
                })
            }),
            final(self).coins.0 <= old(self).coins.0,
            old(self).wf() ==> final(self).wf(),
    {
        if self.state != GameState::SkillTree {
            return false;
        }
        match &mut self.tree {
            Some(tree) => tree.purchase(node, &mut self.coins, &mut self.weapon, &mut self.upgrades),
            None => false,
        }
    }
}

/// The enemy scale never falls while a run lasts, and it is back at one
/// exactly when the menu is entered or a run starts from it: no other event
/// touches it.
pub proof fn lemma_scale_resets_on_menu(run: Run, event: GameEvent)
    ensures
        run.handled(event).difficulty.config == run.difficulty.config,
        run.handled(event).state == GameState::Menu && run.state != GameState::Menu
            ==> run.handled(event).difficulty == Difficulty::initial(run.difficulty.config),
        run.state == GameState::Menu && run.handled(event).state == GameState::Playing
            ==> run.handled(event).difficulty == Difficulty::initial(run.difficulty.config),
        run.handled(event).state != GameState::Menu && run.state != GameState::Menu
            ==> run.handled(event).difficulty == run.difficulty,
        run.handled(event).state == run.state ==> run.handled(event) == run,
{
}

/// Opening and closing the skill tree touches neither the purse nor the
/// weapon nor the purchases, and the tree that opens depends on the
/// purchases alone.
pub proof fn lemma_overlay_keeps_progress(run: Run)
    requires
        run.state == GameState::Playing,
    ensures
        ({
            let open = run.handled(GameEvent::ToggleSkillTree);
            let closed = open.handled(GameEvent::ToggleSkillTree);
            let again = closed.handled(GameEvent::ToggleSkillTree);
            &&& open.state == GameState::SkillTree
            &&& closed.state == GameState::Playing
            &&& open.tree == Some(opened(run.defs, run.bought))
            &&& again.tree == open.tree
            &&& closed.coins == run.coins && closed.weapon == run.weapon && closed.bought
                == run.bought
            &&& closed.entries == all_released(all_halted(run.entries))
        }),
{
}

} // verus!
