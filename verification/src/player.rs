//! The player: its entity, the barrel that paces the fire, and the bullets
//! it fires.

use crate::components::{EntityKind, Health, HitEnemies, Position, Vector};
use crate::random::random_in_range;
use crate::registry::{
    is_kind, Body, BodyMode, BulletData, BulletView, Entry, EntryView, PlayerData, Record,
    RecordView, Registry,
};
use crate::resources::{BulletType, ShootTimer, Spread};
use crate::timer::Timer;
use crate::weapon::Weapon;
use vstd::prelude::*;

verus! {

/// The health of the player at the start of a run.
pub const PLAYER_HEALTH: i64 = 200;

/// The speed of a bullet.
pub const BULLET_SPEED: u32 = 1500;

/// The number of pictures in the barrel's recoil.
pub const BARREL_FRAMES: u32 = 2;

/// A request for the barrel's recoil to stop at its next rest.
#[derive(Clone, Copy, Debug, PartialEq, Eq, Structural)]
pub struct Ready(pub bool);

/// The barrel of the player's weapon. It recoils while the trigger is held,
/// one picture with each beat of the shoot timer, and a bullet leaves on each
/// beat that finds it at rest.
#[derive(Clone, Copy, Debug, PartialEq, Eq, Structural)]
pub struct Barrel {
    /// The picture of the recoil that shows; 0 is the barrel at rest.
    pub frame: u32,
    pub ready: Ready,
}

/// A bullet that was fired.
#[derive(Clone, Copy, Debug, PartialEq, Eq, Structural)]
pub struct Shot {
    /// The bullet's identifier.
    pub bullet: u64,
    /// Where the bullet starts.
    pub at: Position,
    /// The turn away from the line of aim, in millionths of a radian.
    pub angle: i32,
    pub bullet_type: BulletType,
    /// The bullet's speed.
    pub speed: u32,
}

/// The player as it enters a run: at the centre of the field, fixed in
/// place, in full health.
pub open spec fn fresh_player() -> EntryView {
    EntryView {
        position: Position { x: 0, y: 0 },
        body: Body::still(BodyMode::Fixed),
        record: RecordView::Player(PlayerData { health: Health(PLAYER_HEALTH, PLAYER_HEALTH) }),
    }
}

/// Puts the player into play and hands out its identifier.
pub fn spawn_player(registry: &mut Registry) -> (player: u64)
    ensures
        player == old(registry)@.len(),
        final(registry)@ == old(registry)@.push(Some(fresh_player())),
        old(registry).wf() ==> final(registry).wf(),
{
    registry.spawn(
        Entry {
            position: Position { x: 0, y: 0 },
            body: Body::new(BodyMode::Fixed, None, None),
            record: Record::Player(PlayerData { health: Health::new(PLAYER_HEALTH) }),
        },
    )
}

impl Barrel {
    /// The barrel at rest, with no request to stop.
    pub open spec fn idle() -> Barrel {
        Barrel { frame: 0, ready: Ready(false) }
    }

    /// The barrel and the shoot timer after the trigger was looked at.
    ///
    /// A fresh pull of the trigger while the timer is paused starts the
    /// timer and the recoil. While the trigger is not held and the barrel is
    /// at rest, the recoil is asked to stop.
    pub open spec fn pulled(self, timer: Timer, just_pressed: bool, pressed: bool) -> (Barrel, Timer) {
        let started = just_pressed && timer.paused;
        let frame = if started {
            1
        } else {
            self.frame
        };
        let ready = Ready(
            if !pressed && frame == 0 {
                true
            } else if started {
                false
            } else {
                self.ready.0
            },
        );
        (Barrel { frame, ready }, Timer { paused: timer.paused && !started, ..timer })
    }

    /// Whether a bullet leaves: the shoot timer has just beaten, is running,
    /// and finds the barrel at rest.
    pub open spec fn fires(self, timer: Timer, just_pressed: bool, pressed: bool) -> bool {
        let (barrel, running) = self.pulled(timer, just_pressed, pressed);
        running.due && !running.paused && barrel.frame == 0
    }

    /// The barrel and the shoot timer after `delta` nanoseconds.
    ///
    /// A paused timer is wound back and the barrel is at rest. A running
    /// timer is ticked; on its beat the barrel shows its next picture, and
    /// where the recoil was asked to stop and the barrel would leave its
    /// rest, it stays at rest and the timer is paused.
    pub open spec fn animated(self, timer: Timer, delta: u64) -> (Barrel, Timer) {
        if timer.paused {
            (Barrel { frame: 0, ..self }, Timer { elapsed: 0, ..timer })
        } else {
            let ticked = timer.ticked(delta);
            if ticked.due {
                let next = (self.frame + 1) % (BARREL_FRAMES as int);
                if self.ready.0 && next == 1 {
                    (Barrel { frame: 0, ready: Ready(false) }, Timer { paused: true, ..ticked })
                } else {
                    (Barrel { frame: next as u32, ..self }, ticked)
                }
            } else {
                (self, ticked)
            }
        }
    }

    /// The barrel at rest.
    pub fn new() -> (barrel: Barrel)
        ensures
            barrel == Barrel::idle(),
    {
        Barrel { frame: 0, ready: Ready(false) }
    }

    /// Looks at the trigger and says whether a bullet leaves.
    pub fn trigger(&mut self, timer: &mut ShootTimer, just_pressed: bool, pressed: bool) -> (fire:
        bool)
        ensures
            (*final(self), final(timer).0) == old(self).pulled(old(timer).0, just_pressed, pressed),
            fire == old(self).fires(old(timer).0, just_pressed, pressed),
    {
        if just_pressed && timer.0.paused() {
            timer.0.unpause();
            self.ready = Ready(false);
            self.frame = 1;
        }
        let fire = timer.0.just_finished() && !timer.0.paused() && self.frame == 0;
        if !pressed && self.frame == 0 {
            self.ready = Ready(true);
        }
        fire
    }

    /// Lets `delta` nanoseconds pass for the barrel and the shoot timer.
    pub fn animate(&mut self, timer: &mut ShootTimer, delta: u64)
        ensures
            (*final(self), final(timer).0) == old(self).animated(old(timer).0, delta),
    {
        if timer.0.paused() {
            timer.0.set_elapsed(0);
            self.frame = 0;
        } else {
            timer.0.tick(delta);
            if timer.0.just_finished() {
                let next: u32 = ((self.frame as u64 + 1) % (BARREL_FRAMES as u64)) as u32;
                self.frame = next;
                if self.ready.0 && self.frame == 1 {
                    self.frame = 0;
                    timer.0.pause();
                    self.ready = Ready(false);
                }
            }
        }
    }
}

/// The bullet that the weapon fires from `at`: with the weapon's damage,
/// pierce and knockback, and no enemy hit yet. Its velocity is left to be
/// set once its direction is known.
pub open spec fn round(weapon: Weapon, at: Position) -> EntryView {
    EntryView {
        position: at,
        body: Body {
            mode: BodyMode::Dynamic,
            velocity: Some(Vector { x: 0, y: 0 }),
            force: None,
            prev_velocity: None,
            prev_force: None,
        },
        record: RecordView::Bullet(
            BulletView {
                pierce: weapon.pierce,
                damage: weapon.damage,
                knockback: weapon.knockback,
                hit: Set::empty(),
            },
        ),
    }
}

/// Builds [`round`].
pub fn new_bullet(weapon: &Weapon, at: Position) -> (entry: Entry)
    ensures
        entry@ == round(*weapon, at),
        weapon.wf() ==> entry@.wf(),
{
    Entry {
        position: at,
        body: Body::new(BodyMode::Dynamic, Some(Vector { x: 0, y: 0 }), None),
        record: Record::Bullet(
            BulletData {
                pierce: weapon.pierce,
                damage: weapon.damage,
                knockback: weapon.knockback,
                hit: HitEnemies::default(),
            },
        ),
    }
}

/// The widest turn away from the line of aim that the spread allows, in
/// millionths of a radian.
pub open spec fn widest(spread: Spread) -> int {
    if spread.1 < i32::MAX {
        spread.1 as int
    } else {
        i32::MAX - 1
    }
}

/// A turn away from the line of aim within the spread, to either side, each
/// as likely as the others.
pub fn random_angle(spread: Spread) -> (angle: i32)
    ensures
        -widest(spread) <= angle <= widest(spread),
{
    let most: i32 = if spread.1 < i32::MAX as u32 {
        spread.1 as i32
    } else {
        i32::MAX - 1
    };
    random_in_range(-most, most + 1)
}

/// Lets the player pull the trigger. Where a bullet leaves, it is put into
/// play at the player's place with what the weapon gives it, and the shot
/// says under which identifier and at what angle. No bullet leaves where
/// `player` does not mean a player.
pub fn shoot(
    registry: &mut Registry,
    weapon: &mut Weapon,
    barrel: &mut Barrel,
    player: u64,
    just_pressed: bool,
    pressed: bool,
) -> (shot: Option<Shot>)
    ensures
        (*final(barrel), final(weapon).shoot_timer.0) == old(barrel).pulled(
            old(weapon).shoot_timer.0,
            just_pressed,
            pressed,
        ),
        *final(weapon) == (Weapon { shoot_timer: final(weapon).shoot_timer, ..*old(weapon) }),
        shot.is_some() == (old(barrel).fires(old(weapon).shoot_timer.0, just_pressed, pressed)
            && is_kind(old(registry)@, player, EntityKind::Player)),
        shot.is_none() ==> final(registry)@ == old(registry)@,
        shot matches Some(fired) ==> {
            &&& fired.bullet == old(registry)@.len()
            &&& fired.at == old(registry)@[player as int].unwrap().position
            &&& fired.bullet_type == old(weapon).bullet_type
            &&& fired.speed == BULLET_SPEED
            &&& -widest(old(weapon).spread) <= fired.angle <= widest(old(weapon).spread)
            &&& final(registry)@ == old(registry)@.push(Some(round(*old(weapon), fired.at)))
        },
        old(registry).wf() && old(weapon).wf() ==> final(registry).wf(),
{
    let fire = barrel.trigger(&mut weapon.shoot_timer, just_pressed, pressed);
    if !fire {
        return None;
    }
    let at = match registry.get(player) {
        Some(entry) => match &entry.record {
            Record::Player(_) => entry.position,
            _ => {
                return None;
            },
        },
        None => {
            return None;
        },
    };
    let angle = random_angle(weapon.spread);
    let bullet = registry.spawn(new_bullet(weapon, at));
    Some(Shot { bullet, at, angle, bullet_type: weapon.bullet_type, speed: BULLET_SPEED })
}

} // verus!
