//! The enemies: how they arrive at the edge of the field, ever tougher and
//! ever faster, how a freeze wears off, and how they attack the player.

use crate::components::{AttackTimer, Damage, Health, ImmobileTimer, Position, Vector};
use crate::random::random_in_range;
use crate::registry::{
    Body, BodyMode, EnemyData, Entries, Entry, EntryView, Record, RecordView, Registry,
};
use crate::resources::{
    EnemyScale, ScaleTimer, SpawnTimer, SCALE_INTERVAL, SCALE_ONE, SPAWN_INTERVAL,
};
use crate::timer::Timer;
use vstd::prelude::*;

verus! {

/// The health of an enemy at scale one.
pub const ENEMY_HEALTH: u64 = 100;

/// The damage of an enemy's attack at scale one.
pub const ENEMY_DAMAGE: u64 = 10;

/// The time between two attacks of an enemy, in nanoseconds.
pub const ATTACK_INTERVAL: u64 = 500_000_000;

/// The distance from the player, in pixels, within which an enemy attacks.
pub const ATTACK_RANGE: u32 = 100;

/// The edge of the field at which an enemy arrives.
#[derive(Clone, Copy, Debug, PartialEq, Eq, Structural)]
pub enum EnemySpawnPos {
    Up,
    Down,
    Left,
    Right,
}

/// How the difficulty rises. Each step multiplies the enemy scale by
/// `growth_num / growth_den` and divides the time between two enemies by
/// `ramp_num / ramp_den`; the scale stops at `scale_cap` and the time at
/// `interval_floor`.
#[derive(Clone, Copy, Debug, PartialEq, Eq, Structural)]
pub struct DifficultyConfig {
    pub growth_num: u32,
    pub growth_den: u32,
    pub ramp_num: u32,
    pub ramp_den: u32,
    /// The largest enemy scale, in millionths.
    pub scale_cap: u64,
    /// The shortest time between two enemies, in nanoseconds.
    pub interval_floor: u64,
}

/// The difficulty of a run: the enemy scale, the timer that paces its
/// steps, and the timer that paces the enemies.
#[derive(Clone, Copy, Debug, PartialEq, Eq, Structural)]
pub struct Difficulty {
    pub config: DifficultyConfig,
    pub scale: EnemyScale,
    pub scale_timer: ScaleTimer,
    pub spawn_timer: SpawnTimer,
}

impl EnemySpawnPos {
    /// The edge that a number stands for: 0 to 3 for up, down, left and
    /// right, and none for any other number.
    pub fn from_index(index: i32) -> (zone: Option<EnemySpawnPos>)
        ensures
            zone == match index {
                0 => Some(EnemySpawnPos::Up),
                1 => Some(EnemySpawnPos::Down),
                2 => Some(EnemySpawnPos::Left),
                3 => Some(EnemySpawnPos::Right),
                _ => None::<EnemySpawnPos>,
            },
    {
        match index {
            0 => Some(EnemySpawnPos::Up),
            1 => Some(EnemySpawnPos::Down),
            2 => Some(EnemySpawnPos::Left),
            3 => Some(EnemySpawnPos::Right),
            _ => None,
        }
    }

    /// One of the four edges, each as likely as the others.
    pub fn sample() -> (zone: EnemySpawnPos) {
        match EnemySpawnPos::from_index(random_in_range(0, 4)) {
            Some(zone) => zone,
            None => EnemySpawnPos::Up,
        }
    }
}

/// Whether `along` is a place on an edge that reaches `half` pixels to
/// either side of its middle: from `-half` up to, not including, `half`; the
/// middle itself on an edge without length.
pub open spec fn on_span(along: int, half: int) -> bool {
    if half > 0 {
        -half <= along < half
    } else {
        along == 0
    }
}

/// The place on the given edge of a field of the given size, `along` pixels
/// from the middle of the edge.
pub open spec fn spawn_place(zone: EnemySpawnPos, along: i32, width: u32, height: u32) -> Position {
    match zone {
        EnemySpawnPos::Up => Position { x: along, y: (-(height / 2)) as i32 },
        EnemySpawnPos::Down => Position { x: along, y: (height / 2) as i32 },
        EnemySpawnPos::Left => Position { x: (-(width / 2)) as i32, y: along },
        EnemySpawnPos::Right => Position { x: (width / 2) as i32, y: along },
    }
}

/// Whether the place lies on an edge of a field of the given size.
pub open spec fn on_edge(place: Position, width: u32, height: u32) -> bool {
    ||| (place.y == -(height / 2) || place.y == height / 2) && on_span(
        place.x as int,
        (width / 2) as int,
    )
    ||| (place.x == -(width / 2) || place.x == width / 2) && on_span(
        place.y as int,
        (height / 2) as int,
    )
}

/// Computes [`spawn_place`].
pub fn spawn_position(zone: EnemySpawnPos, along: i32, width: u32, height: u32) -> (place: Position)
    ensures
        place == spawn_place(zone, along, width, height),
        on_span(along as int, (width / 2) as int) && (zone == EnemySpawnPos::Up || zone
            == EnemySpawnPos::Down) ==> on_edge(place, width, height),
        on_span(along as int, (height / 2) as int) && (zone == EnemySpawnPos::Left || zone
            == EnemySpawnPos::Right) ==> on_edge(place, width, height),
{
    let half_width: i32 = (width / 2) as i32;
    let half_height: i32 = (height / 2) as i32;
    match zone {
        EnemySpawnPos::Up => Position { x: along, y: -half_height },
        EnemySpawnPos::Down => Position { x: along, y: half_height },
        EnemySpawnPos::Left => Position { x: -half_width, y: along },
        EnemySpawnPos::Right => Position { x: half_width, y: along },
    }
}

/// A place on an edge of the given length, counted from the middle of the
/// edge, each as likely as the others.
pub fn random_along(length: u32) -> (along: i32)
    ensures
        on_span(along as int, (length / 2) as int),
{
    let half: i32 = (length / 2) as i32;
    if half > 0 {
        random_in_range(-half, half)
    } else {
        0
    }
}

/// A number taken `scale` millionths times, rounded down.
pub open spec fn scaled(base: u64, scale: EnemyScale) -> int {
    base * scale.0 / (SCALE_ONE as int)
}

/// Computes [`scaled`], which always fits where the base is at most 1000.
fn scale_up(base: u64, scale: EnemyScale) -> (value: u64)
    requires
        base <= 1000,
    ensures
        value == scaled(base, scale),
        value <= i64::MAX,
{
    assert(base * scale.0 <= 1000 * 0xffff_ffff_ffff_ffff) by (nonlinear_arith)
        requires
            0 <= base <= 1000,
            0 <= scale.0 <= 0xffff_ffff_ffff_ffff,
    ;
    let product: u128 = base as u128 * scale.0 as u128;
    let value: u128 = product / (SCALE_ONE as u128);
    assert(value <= i64::MAX) by {
        vstd::arithmetic::div_mod::lemma_div_is_ordered(
            product as int,
            1000 * 0xffff_ffff_ffff_ffffint,
            SCALE_ONE as int,
        );
    }
    value as u64
}

/// The health of an enemy that arrives at the given scale.
pub open spec fn recruit_health(scale: EnemyScale) -> Health {
    Health(scaled(ENEMY_HEALTH, scale) as i64, scaled(ENEMY_HEALTH, scale) as i64)
}

/// The damage of an enemy that arrives at the given scale, held at the
/// largest number the field can carry.
pub open spec fn recruit_damage(scale: EnemyScale) -> Damage {
    if scaled(ENEMY_DAMAGE, scale) <= u32::MAX {
        Damage(scaled(ENEMY_DAMAGE, scale) as u32)
    } else {
        Damage(u32::MAX)
    }
}

/// The enemy that arrives at `place` at the given scale: at rest, free to
/// move, with full health and its first attack half a second away.
pub open spec fn recruit(place: Position, scale: EnemyScale) -> EntryView {
    EntryView {
        position: place,
        body: Body {
            mode: BodyMode::Dynamic,
            velocity: Some(Vector { x: 0, y: 0 }),
            force: Some(Vector { x: 0, y: 0 }),
            prev_velocity: None,
            prev_force: None,
        },
        record: RecordView::Enemy(
            EnemyData {
                health: recruit_health(scale),
                damage: recruit_damage(scale),
                attack: AttackTimer(Timer::fresh(ATTACK_INTERVAL, true)),
                immobile: None,
            },
        ),
    }
}

/// Builds [`recruit`].
pub fn new_enemy(place: Position, scale: EnemyScale) -> (entry: Entry)
    ensures
        entry@ == recruit(place, scale),
        entry@.wf(),
{
    let health = scale_up(ENEMY_HEALTH, scale);
    let damage = scale_up(ENEMY_DAMAGE, scale);
    Entry {
        position: place,
        body: Body::new(
            BodyMode::Dynamic,
            Some(Vector { x: 0, y: 0 }),
            Some(Vector { x: 0, y: 0 }),
        ),
        record: Record::Enemy(
            EnemyData {
                health: Health::new(health as i64),
                damage: if damage <= u32::MAX as u64 {
                    Damage(damage as u32)
                } else {
                    Damage(u32::MAX)
                },
                attack: AttackTimer(Timer::new(ATTACK_INTERVAL, true)),
                immobile: None,
            },
        ),
    }
}

/// A number multiplied by a fraction of at least one, rounded down, is not
/// less than the number.
proof fn lemma_raised_not_less(value: int, num: int, den: int)
    requires
        0 <= value,
        0 < den <= num,
    ensures
        value * num / den >= value,
{
    assert(value * den <= value * num) by (nonlinear_arith)
        requires
            0 <= value,
            0 < den <= num,
    ;
    assert(den * value == value * den) by (nonlinear_arith);
    vstd::arithmetic::div_mod::lemma_div_is_ordered(value * den, value * num, den);
    vstd::arithmetic::div_mod::lemma_div_multiples_vanish(value, den);
}

/// A number divided by a fraction of at least one, rounded down, is not
/// more than the number.
proof fn lemma_cut_not_more(value: int, num: int, den: int)
    requires
        0 <= value,
        0 < den <= num,
    ensures
        value * den / num <= value,
{
    assert(value * den <= value * num) by (nonlinear_arith)
        requires
            0 <= value,
            0 < den <= num,
    ;
    assert(num * value == value * num) by (nonlinear_arith);
    vstd::arithmetic::div_mod::lemma_div_is_ordered(value * den, value * num, num);
    vstd::arithmetic::div_mod::lemma_div_multiples_vanish(value, num);
}

impl DifficultyConfig {
    /// The difficulty neither falls nor stalls for want of a divisor, the
    /// cap lies at or above scale one, and the floor at or below the first
    /// interval.
    pub open spec fn wf(self) -> bool {
        &&& self.growth_den >= 1
        &&& self.growth_num >= self.growth_den
        &&& self.ramp_den >= 1
        &&& self.ramp_num >= self.ramp_den
        &&& self.scale_cap >= SCALE_ONE
        &&& self.interval_floor <= SPAWN_INTERVAL
    }

    /// Steps of half a percent more scale and one percent less time between
    /// enemies, without a cap or a floor short of what the numbers can carry.
    pub open spec fn standard() -> DifficultyConfig {
        DifficultyConfig {
            growth_num: 1005,
            growth_den: 1000,
            ramp_num: 101,
            ramp_den: 100,
            scale_cap: u64::MAX,
            interval_floor: 0,
        }
    }

    /// The scale after one step: multiplied by the growth factor, rounded
    /// down, and stopped at the cap. Without a divisor there is no step.
    pub open spec fn grown(self, scale: EnemyScale) -> EnemyScale {
        if self.growth_den == 0 {
            scale
        } else {
            let raised = scale.0 * self.growth_num / (self.growth_den as int);
            if raised <= self.scale_cap {
                EnemyScale(raised as u64)
            } else {
                EnemyScale(self.scale_cap)
            }
        }
    }

    /// The time between two enemies after one step: divided by the ramp
    /// factor, rounded down, stopped at the floor, and held at the largest
    /// number the field can carry. Without a divisor there is no step.
    pub open spec fn tightened(self, interval: u64) -> u64 {
        if self.ramp_num == 0 {
            interval
        } else {
            let cut = interval * self.ramp_den / (self.ramp_num as int);
            if cut < self.interval_floor {
                self.interval_floor
            } else if cut <= u64::MAX {
                cut as u64
            } else {
                u64::MAX
            }
        }
    }

    /// Computes [`DifficultyConfig::grown`]. Under a well-formed
    /// configuration a scale at or below the cap does not fall and stays at
    /// or below the cap.
    pub fn grow(&self, scale: EnemyScale) -> (next: EnemyScale)
        ensures
            next == self.grown(scale),
            self.wf() && scale.0 <= self.scale_cap ==> scale.0 <= next.0 <= self.scale_cap,
    {
        if self.growth_den == 0 {
            return scale;
        }
        assert(scale.0 * self.growth_num <= 0xffff_ffff_ffff_ffff * 0xffff_ffff) by (nonlinear_arith)
            requires
                0 <= scale.0 <= 0xffff_ffff_ffff_ffff,
                0 <= self.growth_num <= 0xffff_ffff,
        ;
        let product: u128 = scale.0 as u128 * self.growth_num as u128;
        let raised: u128 = product / (self.growth_den as u128);
        proof {
            if self.wf() {
                lemma_raised_not_less(scale.0 as int, self.growth_num as int, self.growth_den as int);
            }
        }
        if raised <= self.scale_cap as u128 {
            EnemyScale(raised as u64)
        } else {
            EnemyScale(self.scale_cap)
        }
    }

    /// Computes [`DifficultyConfig::tightened`]. Under a well-formed
    /// configuration a time at or above the floor does not rise and stays at
    /// or above the floor.
    pub fn tighten(&self, interval: u64) -> (next: u64)
        ensures
            next == self.tightened(interval),
            self.wf() && interval >= self.interval_floor ==> self.interval_floor <= next
                <= interval,
    {
        if self.ramp_num == 0 {
            return interval;
        }
        assert(interval * self.ramp_den <= 0xffff_ffff_ffff_ffff * 0xffff_ffff) by (nonlinear_arith)
            requires
                0 <= interval <= 0xffff_ffff_ffff_ffff,
                0 <= self.ramp_den <= 0xffff_ffff,
        ;
        let product: u128 = interval as u128 * self.ramp_den as u128;
        let cut: u128 = product / (self.ramp_num as u128);
        proof {
            if self.wf() {
                lemma_cut_not_more(interval as int, self.ramp_num as int, self.ramp_den as int);
            }
        }
        if cut < self.interval_floor as u128 {
            self.interval_floor
        } else if cut <= u64::MAX as u128 {
            cut as u64
        } else {
            u64::MAX
        }
    }
}

impl Default for DifficultyConfig {
    fn default() -> (config: DifficultyConfig)
        ensures
            config == DifficultyConfig::standard(),
            config.wf(),
    {
        DifficultyConfig {
            growth_num: 1005,
            growth_den: 1000,
            ramp_num: 101,
            ramp_den: 100,
            scale_cap: u64::MAX,
            interval_floor: 0,
        }
    }
}

impl Difficulty {
    /// The difficulty at the start of a run: scale one, an enemy each
    /// second, a step each second.
    pub open spec fn initial(config: DifficultyConfig) -> Difficulty {
        Difficulty {
            config,
            scale: EnemyScale(SCALE_ONE),
            scale_timer: ScaleTimer(Timer::fresh(SCALE_INTERVAL, true)),
            spawn_timer: SpawnTimer(Timer::fresh(SPAWN_INTERVAL, true)),
        }
    }

    /// The scale lies between one and the cap, and the time between two
    /// enemies between the floor and the first interval.
    pub open spec fn wf(self) -> bool {
        &&& self.config.wf()
        &&& SCALE_ONE <= self.scale.0 <= self.config.scale_cap
        &&& self.config.interval_floor <= self.spawn_timer.0.duration <= SPAWN_INTERVAL
    }

    /// The difficulty after `delta` nanoseconds. The step timer is ticked;
    /// where it is due the scale grows and the time between two enemies
    /// tightens. Then the spawn timer is ticked, against the tightened time.
    pub open spec fn ticked(self, delta: u64) -> Difficulty {
        let scale_timer = self.scale_timer.0.ticked(delta);
        let scale = if scale_timer.due {
            self.config.grown(self.scale)
        } else {
            self.scale
        };
        let interval = if scale_timer.due {
            self.config.tightened(self.spawn_timer.0.duration)
        } else {
            self.spawn_timer.0.duration
        };
        let spawn_timer = (Timer { duration: interval, ..self.spawn_timer.0 }).ticked(delta);
        Difficulty {
            config: self.config,
            scale,
            scale_timer: ScaleTimer(scale_timer),
            spawn_timer: SpawnTimer(spawn_timer),
        }
    }

    /// The difficulty at the start of a run.
    pub fn new(config: DifficultyConfig) -> (difficulty: Difficulty)
        ensures
            difficulty == Difficulty::initial(config),
            config.wf() ==> difficulty.wf(),
    {
        Difficulty {
            config,
            scale: EnemyScale::default(),
            scale_timer: ScaleTimer::default(),
            spawn_timer: SpawnTimer::default(),
        }
    }

    /// Puts the difficulty back to the start of a run; the configuration
    /// stays.
    pub fn reset(&mut self)
        ensures
            *final(self) == Difficulty::initial(old(self).config),
            old(self).config.wf() ==> final(self).wf(),
    {
        self.scale = EnemyScale::default();
        self.scale_timer = ScaleTimer::default();
        self.spawn_timer = SpawnTimer::default();
    }

    /// Lets `delta` nanoseconds pass and says whether an enemy is due. The
    /// scale never falls and the time between two enemies never rises.
    pub fn tick(&mut self, delta: u64) -> (due: bool)
        ensures
            *final(self) == old(self).ticked(delta),
            due == final(self).spawn_timer.0.due,
            old(self).wf() ==> {
                &&& final(self).wf()
                &&& final(self).scale.0 >= old(self).scale.0
                &&& final(self).spawn_timer.0.duration <= old(self).spawn_timer.0.duration
            },
    {
        self.scale_timer.0.tick(delta);
        if self.scale_timer.0.just_finished() {
            self.scale = self.config.grow(self.scale);
            let interval = self.config.tighten(self.spawn_timer.0.duration());
            self.spawn_timer.0.set_duration(interval);
        }
        self.spawn_timer.0.tick(delta);
        self.spawn_timer.0.just_finished()
    }
}

impl Difficulty {
    /// The difficulty after a run of ticks, one after the other.
    pub open spec fn ticked_through(self, deltas: Seq<u64>) -> Difficulty
        decreases deltas.len(),
    {
        if deltas.len() == 0 {
            self
        } else {
            self.ticked_through(deltas.drop_last()).ticked(deltas.last())
        }
    }
}

/// Over any stretch of play the enemy scale never falls and the time
/// between two enemies never rises: after any run of ticks the scale is at
/// least, and the time at most, what it was after any part of the run, and
/// so what it was at the start.
pub proof fn lemma_difficulty_monotone(difficulty: Difficulty, deltas: Seq<u64>, k: int)
    requires
        difficulty.wf(),
        0 <= k <= deltas.len(),
    ensures
        difficulty.ticked_through(deltas).wf(),
        difficulty.ticked_through(deltas.take(k)).wf(),
        difficulty.scale.0 <= difficulty.ticked_through(deltas.take(k)).scale.0
            <= difficulty.ticked_through(deltas).scale.0,
        difficulty.spawn_timer.0.duration >= difficulty.ticked_through(
            deltas.take(k),
        ).spawn_timer.0.duration >= difficulty.ticked_through(deltas).spawn_timer.0.duration,
        difficulty.ticked_through(deltas).config == difficulty.config,
    decreases deltas.len(),
{
    if deltas.len() == 0 {
        assert(deltas.take(k) =~= deltas);
    } else if k == deltas.len() {
        assert(deltas.take(k) =~= deltas);
        lemma_difficulty_monotone(difficulty, deltas.drop_last(), 0);
        lemma_tick_monotone(difficulty.ticked_through(deltas.drop_last()), deltas.last());
    } else {
        assert(deltas.drop_last().take(k) =~= deltas.take(k));
        lemma_difficulty_monotone(difficulty, deltas.drop_last(), k);
        lemma_tick_monotone(difficulty.ticked_through(deltas.drop_last()), deltas.last());
    }
}

/// An enemy is due exactly on the tick on which the time since the last
/// one reaches the time between two enemies, as that tick leaves it: where
/// the difficulty steps on the same tick, the tightened time counts.
pub proof fn lemma_enemy_due(difficulty: Difficulty, delta: u64)
    requires
        !difficulty.spawn_timer.0.paused,
        difficulty.spawn_timer.0.repeating,
    ensures
        difficulty.ticked(delta).spawn_timer.0.due <==> difficulty.spawn_timer.0.elapsed + delta
            >= difficulty.ticked(delta).spawn_timer.0.duration,
        !difficulty.ticked(delta).scale_timer.0.due ==> difficulty.ticked(
            delta,
        ).spawn_timer.0.duration == difficulty.spawn_timer.0.duration,
{
}

/// One tick keeps the difficulty well formed, never lowers the scale and
/// never lengthens the time between two enemies.
pub proof fn lemma_tick_monotone(difficulty: Difficulty, delta: u64)
    requires
        difficulty.wf(),
    ensures
        difficulty.ticked(delta).wf(),
        difficulty.scale.0 <= difficulty.ticked(delta).scale.0,
        difficulty.spawn_timer.0.duration >= difficulty.ticked(delta).spawn_timer.0.duration,
{
    let config = difficulty.config;
    lemma_raised_not_less(
        difficulty.scale.0 as int,
        config.growth_num as int,
        config.growth_den as int,
    );
    lemma_cut_not_more(
        difficulty.spawn_timer.0.duration as int,
        config.ramp_num as int,
        config.ramp_den as int,
    );
}

/// Lets `delta` nanoseconds pass and, where an enemy is due, puts one into
/// play at a random place on a random edge of the field, as tough as the
/// difficulty now makes it. Says which enemy arrived, if one did.
pub fn spawn_enemies(
    difficulty: &mut Difficulty,
    registry: &mut Registry,
    delta: u64,
    width: u32,
    height: u32,
) -> (arrived: Option<u64>)
    ensures
        *final(difficulty) == old(difficulty).ticked(delta),
        old(difficulty).wf() ==> {
            &&& final(difficulty).wf()
            &&& final(difficulty).scale.0 >= old(difficulty).scale.0
            &&& final(difficulty).spawn_timer.0.duration <= old(difficulty).spawn_timer.0.duration
        },
        arrived.is_some() == final(difficulty).spawn_timer.0.due,
        arrived.is_none() ==> final(registry)@ == old(registry)@,
        arrived matches Some(id) ==> {
            &&& id == old(registry)@.len()
            &&& final(registry)@.len() == old(registry)@.len() + 1
            &&& on_edge(final(registry)@[id as int].unwrap().position, width, height)
            &&& final(registry)@ == old(registry)@.push(
                Some(recruit(final(registry)@[id as int].unwrap().position, final(difficulty).scale)),
            )
        },
        old(registry).wf() ==> final(registry).wf(),
{
    if !difficulty.tick(delta) {
        return None;
    }
    let zone = EnemySpawnPos::sample();
    let along = match zone {
        EnemySpawnPos::Up => random_along(width),
        EnemySpawnPos::Down => random_along(width),
        EnemySpawnPos::Left => random_along(height),
        EnemySpawnPos::Right => random_along(height),
    };
    let place = spawn_position(zone, along, width, height);
    let id = registry.spawn(new_enemy(place, difficulty.scale));
    Some(id)
}

/// Whether the entity is a frozen enemy.
pub open spec fn frozen(entry: Option<EntryView>) -> bool {
    entry matches Some(e) && e.record matches RecordView::Enemy(data) && data.immobile.is_some()
}

/// Whether the entity is a frozen enemy whose freeze ends with a tick of
/// `delta` nanoseconds.
pub open spec fn thaws(entry: Option<EntryView>, delta: u64) -> bool {
    frozen(entry) && entry.unwrap().record->Enemy_0.immobile.unwrap().0.ticked(delta).due
}

/// The entity after `delta` nanoseconds of freeze. A frozen enemy is held
/// still, without velocity or force; its countdown is ticked, and where the
/// countdown ends the freeze is lifted. Any other entity stays as it is.
pub open spec fn thawing(entry: Option<EntryView>, delta: u64) -> Option<EntryView> {
    if frozen(entry) {
        let e = entry.unwrap();
        let data = e.record->Enemy_0;
        let countdown = data.immobile.unwrap().0.ticked(delta);
        Some(
            EntryView {
                body: Body {
                    velocity: Some(Vector { x: 0, y: 0 }),
                    force: Some(Vector { x: 0, y: 0 }),
                    ..e.body
                },
                record: RecordView::Enemy(
                    EnemyData {
                        immobile: if countdown.due {
                            None
                        } else {
                            Some(ImmobileTimer(countdown))
                        },
                        ..data
                    },
                ),
                ..e
            },
        )
    } else {
        entry
    }
}

/// The entities after `delta` nanoseconds of freeze.
pub open spec fn all_thawing(entries: Entries, delta: u64) -> Entries {
    Seq::new(entries.len(), |i: int| thawing(entries[i], delta))
}

/// Lets `delta` nanoseconds pass for every frozen enemy and names the
/// enemies whose freeze ended, in rising order.
pub fn handle_freeze(registry: &mut Registry, delta: u64) -> (thawed: Vec<u64>)
    ensures
        final(registry)@ == all_thawing(old(registry)@, delta),
        forall|k: int, m: int| 0 <= k < m < thawed@.len() ==> thawed@[k] < thawed@[m],
        forall|id: u64|
            thawed@.contains(id) <==> id < old(registry)@.len() && thaws(
                old(registry)@[id as int],
                delta,
            ),
        old(registry).wf() ==> final(registry).wf(),
{
    let ghost start = registry@;
    let count = registry.slots.len();
    let mut thawed: Vec<u64> = Vec::new();
    let mut i: usize = 0;
    while i < count
        invariant
            count == start.len(),
            registry@.len() == count,
            i <= count,
            forall|j: int| 0 <= j < i ==> #[trigger] registry@[j] == thawing(start[j], delta),
            forall|j: int| i <= j < count ==> #[trigger] registry@[j] == start[j],
            forall|k: int, m: int| 0 <= k < m < thawed@.len() ==> thawed@[k] < thawed@[m],
            forall|k: int| 0 <= k < thawed@.len() ==> #[trigger] thawed@[k] < i,
            forall|id: u64| thawed@.contains(id) <==> id < i && thaws(start[id as int], delta),
            start == old(registry)@,
            old(registry).wf() ==> registry.wf(),
        decreases count - i,
    {
        let ghost before = registry@;
        let ghost listed = thawed@;
        assert(before[i as int] == start[i as int]);
        let mut over = false;
        match &mut registry.slots[i] {
            Some(entry) => match &mut entry.record {
                Record::Enemy(data) => {
                    if let Some(countdown) = data.immobile {
                        let mut timer = countdown.0;
                        timer.tick(delta);
                        entry.body.velocity = Some(Vector { x: 0, y: 0 });
                        entry.body.force = Some(Vector { x: 0, y: 0 });
                        if timer.just_finished() {
                            data.immobile = None;
                            over = true;
                        } else {
                            data.immobile = Some(ImmobileTimer(timer));
                        }
                    }
                },
                _ => {},
            },
            None => {},
        }
        assert(registry@ =~= before.update(i as int, thawing(start[i as int], delta)));
        assert(over == thaws(start[i as int], delta));
        if over {
            thawed.push(i as u64);
            assert(thawed@[thawed@.len() - 1] == i);
            assert forall|id: u64| thawed@.contains(id) implies id < i + 1 && thaws(
                start[id as int],
                delta,
            ) by {
                let k = choose|k: int| 0 <= k < thawed@.len() && thawed@[k] == id;
                if k < listed.len() {
                    assert(listed[k] == id);
                    assert(listed.contains(id));
                }
            }
            assert forall|id: u64| id < i + 1 && thaws(start[id as int], delta) implies thawed@.contains(
                id,
            ) by {
                if id < i {
                    assert(listed.contains(id));
                    let k = choose|k: int| 0 <= k < listed.len() && listed[k] == id;
                    assert(thawed@[k] == id);
                } else {
                    assert(thawed@[thawed@.len() - 1] == id);
                }
            }
        }
        i += 1;
    }
    assert(registry@ =~= all_thawing(start, delta));
    thawed
}

/// Whether the entity is an enemy within attacking range of `centre`.
pub open spec fn in_reach(entry: Option<EntryView>, centre: Position) -> bool {
    entry matches Some(e) && e.record is Enemy && centre.within(e.position, ATTACK_RANGE)
}

/// Whether the entity is an enemy within range of `centre` whose attack
/// lands with a tick of `delta` nanoseconds.
pub open spec fn lands(entry: Option<EntryView>, centre: Position, delta: u64) -> bool {
    in_reach(entry, centre) && entry.unwrap().record->Enemy_0.attack.0.ticked(delta).due
}

/// The entity after `delta` nanoseconds of attack on a player at `centre`:
/// an enemy within range has its attack timer ticked, any other entity stays
/// as it is.
pub open spec fn pressing(entry: Option<EntryView>, centre: Position, delta: u64) -> Option<
    EntryView,
> {
    if in_reach(entry, centre) {
        let e = entry.unwrap();
        let data = e.record->Enemy_0;
        Some(
            EntryView {
                record: RecordView::Enemy(
                    EnemyData { attack: AttackTimer(data.attack.0.ticked(delta)), ..data },
                ),
                ..e
            },
        )
    } else {
        entry
    }
}

/// The player's health after the attacks of the enemies in the first `n`
/// places, taken in rising order: each attack that lands takes the enemy's
/// damage.
pub open spec fn harmed(entries: Entries, centre: Position, delta: u64, health: Health, n: nat) -> Health
    decreases n,
{
    if n == 0 {
        health
    } else {
        let before = harmed(entries, centre, delta, health, (n - 1) as nat);
        if n - 1 < entries.len() && lands(entries[n - 1], centre, delta) {
            before.after(entries[n - 1].unwrap().record->Enemy_0.damage)
        } else {
            before
        }
    }
}

/// The entities after `delta` nanoseconds of attack on the player that
/// `player` means: the enemies within range have their attack timers ticked
/// and the player has the health that [`harmed`] gives. Nothing changes where
/// `player` does not mean a player.
pub open spec fn assaulted(entries: Entries, player: u64, delta: u64) -> Entries {
    if crate::registry::is_kind(entries, player, crate::components::EntityKind::Player) {
        let target = entries[player as int].unwrap();
        let centre = target.position;
        let health = harmed(entries, centre, delta, target.record->Player_0.health, entries.len());
        Seq::new(
            entries.len(),
            |i: int|
                if i == player {
                    Some(EntryView { record: target.record.with_health(health), ..target })
                } else {
                    pressing(entries[i], centre, delta)
                },
        )
    } else {
        entries
    }
}

/// The damage of all attacks that land from the first `n` places, added
/// up.
pub open spec fn landed_damage(entries: Entries, centre: Position, delta: u64, n: nat) -> nat
    decreases n,
{
    if n == 0 {
        0
    } else {
        landed_damage(entries, centre, delta, (n - 1) as nat) + if n - 1 < entries.len() && lands(
            entries[n - 1],
            centre,
            delta,
        ) {
            entries[n - 1].unwrap().record->Enemy_0.damage.0 as nat
        } else {
            0nat
        }
    }
}

/// However many enemies attack, the player loses exactly the sum of the
/// damage of the attacks that land, down to the smallest number the health
/// can carry.
pub proof fn lemma_harm_is_total(
    entries: Entries,
    centre: Position,
    delta: u64,
    health: Health,
    n: nat,
)
    ensures
        harmed(entries, centre, delta, health, n) == Health(
            if health.0 - landed_damage(entries, centre, delta, n) >= i64::MIN {
                (health.0 - landed_damage(entries, centre, delta, n)) as i64
            } else {
                i64::MIN
            },
            health.1,
        ),
    decreases n,
{
    if n > 0 {
        lemma_harm_is_total(entries, centre, delta, health, (n - 1) as nat);
    }
}

/// The attacks never add to the player's health.
pub proof fn lemma_harm_only_lowers(
    entries: Entries,
    centre: Position,
    delta: u64,
    health: Health,
    n: nat,
)
    ensures
        harmed(entries, centre, delta, health, n).0 <= health.0,
        harmed(entries, centre, delta, health, n).1 == health.1,
    decreases n,
{
    if n > 0 {
        lemma_harm_only_lowers(entries, centre, delta, health, (n - 1) as nat);
    }
}

/// Lets `delta` nanoseconds pass for the attacks on the player: every enemy
/// within range of the player has its attack timer ticked, and each attack
/// that lands takes its damage from the player's health. Says what health the
/// player is left with, if `player` means a player.
pub fn damage_player(registry: &mut Registry, player: u64, delta: u64) -> (left: Option<Health>)
    ensures
        final(registry)@ == assaulted(old(registry)@, player, delta),
        left == if crate::registry::is_kind(
            old(registry)@,
            player,
            crate::components::EntityKind::Player,
        ) {
            final(registry)@[player as int].unwrap().record.health()
        } else {
            None
        },
        old(registry).wf() ==> final(registry).wf(),
{
    let ghost start = registry@;
    let (centre, first) = match registry.get(player) {
        Some(entry) => match &entry.record {
            Record::Player(data) => (entry.position, data.health),
            _ => {
                return None;
            },
        },
        None => {
            return None;
        },
    };
    let count = registry.slots.len();
    let spot: usize = player as usize;
    let mut health = first;
    let mut i: usize = 0;
    while i < count
        invariant
            count == start.len(),
            registry@.len() == count,
            i <= count,
            spot == player,
            spot < count,
            crate::registry::is_kind(start, player, crate::components::EntityKind::Player),
            centre == start[player as int].unwrap().position,
            first == start[player as int].unwrap().record->Player_0.health,
            health == harmed(start, centre, delta, first, i as nat),
            forall|j: int| 0 <= j < i ==> #[trigger] registry@[j] == pressing(start[j], centre, delta),
            forall|j: int| i <= j < count ==> #[trigger] registry@[j] == start[j],
            start == old(registry)@,
            old(registry).wf() ==> registry.wf(),
        decreases count - i,
    {
        let ghost before = registry@;
        assert(before[i as int] == start[i as int]);
        match &mut registry.slots[i] {
            Some(entry) => match &mut entry.record {
                Record::Enemy(data) => {
                    if centre.is_within(&entry.position, ATTACK_RANGE) {
                        data.attack.0.tick(delta);
                        if data.attack.0.just_finished() {
                            health.take(data.damage);
                        }
                    }
                },
                _ => {},
            },
            None => {},
        }
        assert(registry@ =~= before.update(i as int, pressing(start[i as int], centre, delta)));
        i += 1;
    }
    let ghost swept = registry@;
    match &mut registry.slots[spot] {
        Some(entry) => match &mut entry.record {
            Record::Player(data) => {
                data.health = health;
            },
            _ => {},
        },
        None => {},
    }
    proof {
        let target = start[player as int].unwrap();
        assert(swept[player as int] == start[player as int]);
        assert(registry@ =~= swept.update(
            player as int,
            Some(EntryView { record: target.record.with_health(health), ..target }),
        ));
        assert(registry@ =~= assaulted(start, player, delta));
    }
    Some(health)
}

} // verus!
