//! The values that belong to a run as a whole: the purse, the weapon's
//! settings and the pace of the enemies.

use crate::timer::Timer;
use vstd::prelude::*;

verus! {

/// Half the opening of the widest fan of fire, an eighth of a half turn, in
/// millionths of a radian.
pub const SPREAD_WIDE: u32 = 392_699;

/// Half the opening of the narrow fan of fire, a sixteenth of a half turn,
/// in millionths of a radian.
pub const SPREAD_NARROW: u32 = 196_350;

/// The time between two shots of the weapon as it is at the start of a run,
/// in nanoseconds.
pub const SHOOT_INTERVAL: u64 = 125_000_000;

/// The time between two enemies at the start of a run, in nanoseconds.
pub const SPAWN_INTERVAL: u64 = 1_000_000_000;

/// The time between two steps of the difficulty, in nanoseconds.
pub const SCALE_INTERVAL: u64 = 1_000_000_000;

/// The enemy scale that stands for the factor one.
pub const SCALE_ONE: u64 = 1_000_000;

/// How far the weapon's fire fans out: the number of times it was narrowed,
/// and half the opening of the fan in millionths of a radian.
#[derive(Clone, Copy, Debug, PartialEq, Eq, Structural)]
pub struct Spread(pub u32, pub u32);

/// The sort of projectile that the weapon fires.
#[derive(Clone, Copy, Debug, PartialEq, Eq, Structural)]
pub enum BulletType {
    Regular,
    Rocket,
    SawBlade,
}

/// Whether a hit freezes the enemy.
#[derive(Clone, Copy, Debug, PartialEq, Eq, Structural)]
pub struct HasIce(pub bool);

/// Whether bullets draw enemies towards them.
#[derive(Clone, Copy, Debug, PartialEq, Eq, Structural)]
pub struct HasSuck(pub bool);

/// The coins in the purse.
#[derive(Clone, Copy, Debug, PartialEq, Eq, Structural)]
pub struct Coins(pub u32);

/// Paces the steps of the difficulty.
#[derive(Clone, Copy, Debug, PartialEq, Eq, Structural)]
pub struct ScaleTimer(pub Timer);

/// Paces the arrival of enemies.
#[derive(Clone, Copy, Debug, PartialEq, Eq, Structural)]
pub struct SpawnTimer(pub Timer);

/// Paces the weapon's shots.
#[derive(Clone, Copy, Debug, PartialEq, Eq, Structural)]
pub struct ShootTimer(pub Timer);

/// The factor by which new enemies are tougher than the first ones, in
/// millionths.
#[derive(Clone, Copy, Debug, PartialEq, Eq, Structural)]
pub struct EnemyScale(pub u64);

impl Spread {
    /// The spread after it was narrowed once more: from the wide fan to the
    /// narrow one, from the narrow one to a straight line, and no further.
    pub open spec fn narrowed(self) -> Spread {
        if self.0 == 0 {
            Spread(1, SPREAD_NARROW)
        } else if self.0 == 1 {
            Spread(2, 0)
        } else {
            self
        }
    }

    /// Narrows the spread by one step.
    pub fn next(&mut self)
        ensures
            *final(self) == old(self).narrowed(),
    {
        if self.0 == 0 {
            self.1 = SPREAD_NARROW;
            self.0 = 1;
        } else if self.0 == 1 {
            self.1 = 0;
            self.0 = 2;
        }
    }
}

impl Default for Spread {
    /// The wide fan, never narrowed.
    fn default() -> (spread: Spread)
        ensures
            spread == Spread(0, SPREAD_WIDE),
    {
        Spread(0, SPREAD_WIDE)
    }
}

impl Default for BulletType {
    fn default() -> (kind: BulletType)
        ensures
            kind == BulletType::Regular,
    {
        BulletType::Regular
    }
}

impl Default for HasIce {
    fn default() -> (flag: HasIce)
        ensures
            flag == HasIce(false),
    {
        HasIce(false)
    }
}

impl Default for HasSuck {
    fn default() -> (flag: HasSuck)
        ensures
            flag == HasSuck(false),
    {
        HasSuck(false)
    }
}

impl Default for Coins {
    /// An empty purse.
    fn default() -> (coins: Coins)
        ensures
            coins == Coins(0),
    {
        Coins(0)
    }
}

impl Coins {
    /// The purse after `value` coins were added, held at the largest number
    /// it can carry.
    pub open spec fn plus(self, value: u32) -> Coins {
        if self.0 + value <= u32::MAX {
            Coins((self.0 + value) as u32)
        } else {
            Coins(u32::MAX)
        }
    }

    /// Adds `value` coins to the purse.
    pub fn gain(&mut self, value: u32)
        ensures
            *final(self) == old(self).plus(value),
            final(self).0 >= old(self).0,
    {
        if self.0 <= u32::MAX - value {
            self.0 = self.0 + value;
        } else {
            self.0 = u32::MAX;
        }
    }
}

impl Default for ScaleTimer {
    fn default() -> (timer: ScaleTimer)
        ensures
            timer == ScaleTimer(Timer::fresh(SCALE_INTERVAL, true)),
    {
        ScaleTimer(Timer::new(SCALE_INTERVAL, true))
    }
}

impl Default for SpawnTimer {
    fn default() -> (timer: SpawnTimer)
        ensures
            timer == SpawnTimer(Timer::fresh(SPAWN_INTERVAL, true)),
    {
        SpawnTimer(Timer::new(SPAWN_INTERVAL, true))
    }
}

impl Default for ShootTimer {
    fn default() -> (timer: ShootTimer)
        ensures
            timer == ShootTimer(Timer::fresh(SHOOT_INTERVAL, true)),
    {
        ShootTimer(Timer::new(SHOOT_INTERVAL, true))
    }
}

impl Default for EnemyScale {
    /// The factor one.
    fn default() -> (scale: EnemyScale)
        ensures
            scale == EnemyScale(SCALE_ONE),
    {
        EnemyScale(SCALE_ONE)
    }
}

} // verus!
