//! The weapon: what a run's upgrades have made of it, and what each upgrade
//! does to it.

use crate::components::{Damage, Knockback, Pierce};
use crate::resources::{BulletType, HasIce, HasSuck, ShootTimer, Spread};
use crate::timer::Timer;
use vstd::prelude::*;

verus! {

/// The settings of the weapon. Bullets take their damage, pierce and
/// knockback from here when they are fired.
#[derive(Clone, Copy, Debug, PartialEq, Eq, Structural)]
pub struct Weapon {
    pub damage: Damage,
    pub pierce: Pierce,
    pub knockback: Knockback,
    pub spread: Spread,
    /// Paces the shots; its duration is the time between two shots.
    pub shoot_timer: ShootTimer,
    pub bullet_type: BulletType,
    /// Whether bullets draw enemies towards them.
    pub has_suck: HasSuck,
    /// Whether a hit freezes the enemy.
    pub has_ice: HasIce,
}

/// A change that an upgrade makes to the weapon.
#[derive(Clone, Copy, Debug, PartialEq, Eq, Structural)]
pub enum Upgrade {
    /// Rockets: heavy, pushing, and faster to fire.
    Rocket,
    /// Saw blades: heavier still, going through four enemies.
    SawBlade,
    /// The first narrowing of the fan of fire.
    SpreadFirst,
    /// The second narrowing of the fan of fire.
    SpreadSecond,
}

impl Upgrade {
    /// The time that the upgrade takes off the time between two shots, in
    /// nanoseconds.
    pub open spec fn haste(self) -> u64 {
        match self {
            Upgrade::Rocket => 62_500_000,
            Upgrade::SawBlade => 31_250_000,
            Upgrade::SpreadFirst => 10_000_000,
            Upgrade::SpreadSecond => 15_000_000,
        }
    }

    /// Computes [`Upgrade::haste`].
    pub fn haste_nanos(&self) -> (nanos: u64)
        ensures
            nanos == self.haste(),
    {
        match self {
            Upgrade::Rocket => 62_500_000,
            Upgrade::SawBlade => 31_250_000,
            Upgrade::SpreadFirst => 10_000_000,
            Upgrade::SpreadSecond => 15_000_000,
        }
    }
}

impl Weapon {
    /// The weapon at the start of a run.
    pub open spec fn initial() -> Weapon {
        Weapon {
            damage: Damage(75),
            pierce: Pierce(1),
            knockback: Knockback(0),
            spread: Spread(0, crate::resources::SPREAD_WIDE),
            shoot_timer: ShootTimer(Timer::fresh(crate::resources::SHOOT_INTERVAL, true)),
            bullet_type: BulletType::Regular,
            has_suck: HasSuck(false),
            has_ice: HasIce(false),
        }
    }

    /// A weapon's bullets hit at least one enemy and do at least one point
    /// of damage.
    pub open spec fn wf(self) -> bool {
        self.pierce.0 >= 1 && self.damage.0 >= 1
    }

    /// The weapon with `cut` nanoseconds taken off the time between two
    /// shots, which does not go below zero.
    pub open spec fn hastened(self, cut: u64) -> Weapon {
        let timer = self.shoot_timer.0;
        let duration = if timer.duration >= cut {
            (timer.duration - cut) as u64
        } else {
            0
        };
        Weapon { shoot_timer: ShootTimer(Timer { duration, ..timer }), ..self }
    }

    /// The weapon after an upgrade.
    pub open spec fn upgraded(self, upgrade: Upgrade) -> Weapon {
        let base = self.hastened(upgrade.haste());
        match upgrade {
            Upgrade::Rocket => Weapon {
                bullet_type: BulletType::Rocket,
                damage: Damage(100),
                knockback: Knockback(2000),
                ..base
            },
            Upgrade::SawBlade => Weapon {
                bullet_type: BulletType::SawBlade,
                damage: Damage(140),
                pierce: Pierce(4),
                knockback: Knockback(0),
                ..base
            },
            Upgrade::SpreadFirst => Weapon { spread: self.spread.narrowed(), ..base },
            Upgrade::SpreadSecond => Weapon { spread: self.spread.narrowed(), ..base },
        }
    }

    /// Applies an upgrade to the weapon.
    pub fn apply(&mut self, upgrade: Upgrade)
        ensures
            *final(self) == old(self).upgraded(upgrade),
            old(self).wf() ==> final(self).wf(),
    {
        let cut = upgrade.haste_nanos();
        let duration = self.shoot_timer.0.duration();
        let shorter: u64 = if duration >= cut {
            duration - cut
        } else {
            0
        };
        self.shoot_timer.0.set_duration(shorter);
        match upgrade {
            Upgrade::Rocket => {
                self.bullet_type = BulletType::Rocket;
                self.damage = Damage(100);
                self.knockback = Knockback(2000);
            },
            Upgrade::SawBlade => {
                self.bullet_type = BulletType::SawBlade;
                self.damage = Damage(140);
                self.pierce = Pierce(4);
                self.knockback = Knockback(0);
            },
            Upgrade::SpreadFirst => {
                self.spread.next();
            },
            Upgrade::SpreadSecond => {
                self.spread.next();
            },
        }
    }
}

impl Default for Weapon {
    /// The weapon at the start of a run.
    fn default() -> (weapon: Weapon)
        ensures
            weapon == Weapon::initial(),
            weapon.wf(),
    {
        Weapon {
            damage: Damage::default(),
            pierce: Pierce::default(),
            knockback: Knockback::default(),
            spread: Spread::default(),
            shoot_timer: ShootTimer::default(),
            bullet_type: BulletType::default(),
            has_suck: HasSuck::default(),
            has_ice: HasIce::default(),
        }
    }
}

} // verus!
