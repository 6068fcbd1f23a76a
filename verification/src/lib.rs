//! The rules of a top-down survival shooter, verified.
//!
//! A player at the centre of the field fires at enemies that close in from
//! its edges. Bullets carry damage, pierce and knockback; fallen enemies drop
//! coins; coins buy upgrades from a skill tree; and the enemies grow tougher
//! and arrive faster as a run goes on.
//!
//! The library holds the rules and nothing else. It neither draws nor moves
//! anything: the caller runs the physics, reports which entities overlap, and
//! shows what the library decides. All quantities are whole numbers: time in
//! nanoseconds, places in pixels, health and damage in points, angles in
//! millionths of a radian, the enemy scale in millionths.
//!
//! - [`timer`]: countdown and repeating timers.
//! - [`components`] and [`resources`]: the values that entities and a run carry.
//! - [`registry`]: the entities in play, by identifier.
//! - [`collision`] and [`sweep`]: what overlaps do, and what is removed after.
//! - [`enemy`]: arrival, difficulty, freezing and attacks.
//! - [`player`] and [`weapon`]: firing, and what upgrades do to the weapon.
//! - [`skill_tree`]: buying upgrades.
//! - [`pause`]: halting the field while the skill tree is open.
//! - [`state`], [`game_over`] and [`simulation`]: the phases of the game and
//!   the steps of a frame.
//! - [`id_set`] and [`random`]: the hash set and the random numbers that the
//!   library takes from other crates, on trust.

pub mod collision;
pub mod components;
pub mod enemy;
pub mod game_over;
pub mod id_set;
pub mod pause;
pub mod player;
pub mod random;
pub mod registry;
pub mod resources;
pub mod simulation;
pub mod skill_tree;
pub mod state;
pub mod sweep;
pub mod timer;
pub mod weapon;
