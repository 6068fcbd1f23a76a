//! The attributes that entities carry.

use crate::id_set::IdSet;
use crate::timer::Timer;
use vstd::prelude::*;

verus! {

/// The four sorts of entity that take part in combat.
#[derive(Clone, Copy, Debug, PartialEq, Eq, Structural)]
pub enum EntityKind {
    Player,
    Enemy,
    Bullet,
    Coin,
}

/// A place on the field, in whole pixels from its centre.
#[derive(Clone, Copy, Debug, PartialEq, Eq, Structural)]
pub struct Position {
    pub x: i32,
    pub y: i32,
}

/// A velocity or a force, in thousandths of a unit along each axis.
#[derive(Clone, Copy, Debug, PartialEq, Eq, Structural)]
pub struct Vector {
    pub x: i32,
    pub y: i32,
}

/// Hit points: what is left, and what the entity started with.
#[derive(Clone, Copy, Debug, PartialEq, Eq, Structural)]
pub struct Health(pub i64, pub i64);

/// The number of distinct enemies a bullet may still hit.
#[derive(Clone, Copy, Debug, PartialEq, Eq, Structural)]
pub struct Pierce(pub u32);

/// The hit points that one hit takes away.
#[derive(Clone, Copy, Debug, PartialEq, Eq, Structural)]
pub struct Damage(pub u32);

/// The size of the push that a hit gives an enemy, against the direction in
/// which the enemy drives.
#[derive(Clone, Copy, Debug, PartialEq, Eq, Structural)]
pub struct Knockback(pub u32);

/// The enemies that a bullet has already hit.
pub struct HitEnemies(pub IdSet);

/// Paces an enemy's attacks on the player.
#[derive(Clone, Copy, Debug, PartialEq, Eq, Structural)]
pub struct AttackTimer(pub Timer);

/// Counts down the time for which an enemy stays frozen.
#[derive(Clone, Copy, Debug, PartialEq, Eq, Structural)]
pub struct ImmobileTimer(pub Timer);

impl Position {
    /// Whether `self` lies within `radius` pixels of `other`, the distance
    /// taken along a straight line.
    pub open spec fn within(self, other: Position, radius: u32) -> bool {
        (self.x - other.x) * (self.x - other.x) + (self.y - other.y) * (self.y - other.y)
            <= radius * radius
    }

    /// Decides [`Position::within`].
    pub fn is_within(&self, other: &Position, radius: u32) -> (near: bool)
        ensures
            near == self.within(*other, radius),
    {
        let dx: i64 = self.x as i64 - other.x as i64;
        let dy: i64 = self.y as i64 - other.y as i64;
        let r: i64 = radius as i64;
        assert(-0x1_0000_0000 < dx < 0x1_0000_0000 && -0x1_0000_0000 < dy < 0x1_0000_0000);
        assert(dx * dx <= 0x1_0000_0000 * 0x1_0000_0000 && dx * dx >= 0) by (nonlinear_arith)
            requires
                -0x1_0000_0000 < dx < 0x1_0000_0000,
        ;
        assert(dy * dy <= 0x1_0000_0000 * 0x1_0000_0000 && dy * dy >= 0) by (nonlinear_arith)
            requires
                -0x1_0000_0000 < dy < 0x1_0000_0000,
        ;
        assert(r * r <= 0x1_0000_0000 * 0x1_0000_0000 && r * r >= 0) by (nonlinear_arith)
            requires
                0 <= r < 0x1_0000_0000,
        ;
        let sx: i128 = dx as i128 * dx as i128;
        let sy: i128 = dy as i128 * dy as i128;
        let sr: i128 = r as i128 * r as i128;
        sx + sy <= sr
    }
}

impl Health {
    /// Full health: as much left as at the start.
    pub fn new(health: i64) -> (full: Health)
        ensures
            full == Health(health, health),
    {
        Health(health, health)
    }

    /// Whether nothing is left.
    pub open spec fn depleted(self) -> bool {
        self.0 <= 0
    }

    /// Decides [`Health::depleted`].
    pub fn is_depleted(&self) -> (gone: bool)
        ensures
            gone == self.depleted(),
    {
        self.0 <= 0
    }

    /// The health after a hit: what was left less the damage, held at the
    /// smallest number the field can carry. The starting health stays.
    pub open spec fn after(self, damage: Damage) -> Health {
        Health(
            if self.0 - damage.0 >= i64::MIN {
                (self.0 - damage.0) as i64
            } else {
                i64::MIN
            },
            self.1,
        )
    }

    /// Takes the damage of one hit.
    pub fn take(&mut self, damage: Damage)
        ensures
            *final(self) == old(self).after(damage),
            final(self).0 <= old(self).0,
            damage.0 > 0 && old(self).0 > i64::MIN ==> final(self).0 < old(self).0,
    {
        let loss: i64 = damage.0 as i64;
        if self.0 >= i64::MIN + loss {
            self.0 = self.0 - loss;
        } else {
            self.0 = i64::MIN;
        }
    }

    /// The share of the starting health that is left, in thousandths: 0 where
    /// nothing is left or the starting health is not positive, 1000 where at
    /// least the starting health is left, and the quotient rounded down
    /// between the two.
    pub open spec fn share(self) -> int {
        if self.0 <= 0 || self.1 <= 0 {
            0
        } else if self.0 >= self.1 {
            1000
        } else {
            self.0 * 1000 / (self.1 as int)
        }
    }

    /// Computes [`Health::share`].
    pub fn ratio_permille(&self) -> (share: u32)
        ensures
            share == self.share(),
            share <= 1000,
    {
        if self.0 <= 0 || self.1 <= 0 {
            0
        } else if self.0 >= self.1 {
            1000
        } else {
            let left: i128 = self.0 as i128;
            let full: i128 = self.1 as i128;
            let share: i128 = left * 1000 / full;
            assert(0 <= share < 1000) by {
                vstd::arithmetic::div_mod::lemma_div_pos_is_pos(left * 1000, full as int);
                vstd::arithmetic::div_mod::lemma_div_is_ordered(left * 1000, full * 1000 - 1, full as int);
                assert((full * 1000 - 1) / (full as int) < 1000) by (nonlinear_arith)
                    requires
                        full > 0,
                ;
            }
            share as u32
        }
    }
}

impl Default for Pierce {
    /// A bullet hits one enemy.
    fn default() -> (pierce: Pierce)
        ensures
            pierce == Pierce(1),
    {
        Pierce(1)
    }
}

impl Default for Damage {
    /// A hit takes 75 points.
    fn default() -> (damage: Damage)
        ensures
            damage == Damage(75),
    {
        Damage(75)
    }
}

impl Default for Knockback {
    /// A hit does not push.
    fn default() -> (knockback: Knockback)
        ensures
            knockback == Knockback(0),
    {
        Knockback(0)
    }
}

impl View for HitEnemies {
    type V = Set<u64>;

    open spec fn view(&self) -> Set<u64> {
        self.0@
    }
}

impl Default for HitEnemies {
    /// No enemy hit yet.
    fn default() -> (ledger: HitEnemies)
        ensures
            ledger@ == Set::<u64>::empty(),
    {
        HitEnemies(IdSet::new())
    }
}

impl HitEnemies {
    /// Whether the bullet has hit `enemy`.
    pub fn contains(&self, enemy: u64) -> (hit: bool)
        ensures
            hit == self@.contains(enemy),
    {
        self.0.contains(enemy)
    }

    /// Records a hit on `enemy` and says whether it is the first on it.
    /// Nothing is ever taken out of the record.
    pub fn insert(&mut self, enemy: u64) -> (first: bool)
        ensures
            final(self)@ == old(self)@.insert(enemy),
            old(self)@.subset_of(final(self)@),
            first == !old(self)@.contains(enemy),
    {
        self.0.insert(enemy)
    }
}

} // verus!
