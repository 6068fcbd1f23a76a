//! Collision resolution: what the overlaps reported for one tick do to the
//! entities and to the purse.
//!
//! The pairs of a tick are taken in the order in which they arrive. A bullet
//! and an enemy that took part in a hit are set aside for the rest of the
//! tick, so that each is struck at most once per tick. A pair that names an
//! entity which is no longer in play is dropped.

use crate::components::{EntityKind, ImmobileTimer, Knockback, Pierce};
use crate::id_set::IdSet;
use crate::registry::{
    entries_wf, is_kind, live, BulletView, EnemyData, Entries, EntryView, Record, RecordView,
    Registry,
};
use crate::resources::{Coins, HasIce};
use crate::timer::Timer;
use vstd::prelude::*;

verus! {

/// The time for which a freezing hit holds an enemy, in nanoseconds.
pub const FREEZE_TIME: u64 = 250_000_000;

/// What one reported pair came to.
#[derive(Clone, Copy, Debug, PartialEq, Eq, Structural)]
pub enum Outcome {
    /// Nothing: the pair was dropped.
    Ignored,
    /// A bullet struck an enemy.
    Hit {
        bullet: u64,
        enemy: u64,
        /// The size of the push to give the enemy, against its drive.
        knockback: Knockback,
        /// Whether the hit froze the enemy.
        frozen: bool,
        /// Whether this was the bullet's last hit, after which it is gone.
        spent: bool,
    },
    /// The player picked up a coin, which is gone.
    Collected { coin: u64, value: u32 },
}

/// What collision resolution works on: the entities, the purse, and the
/// entities already struck in this tick.
pub struct Field {
    pub entries: Entries,
    pub coins: Coins,
    pub handled: Set<u64>,
}

/// The data of the bullet that `id` means.
pub open spec fn bullet_at(entries: Entries, id: u64) -> BulletView
    recommends
        is_kind(entries, id, EntityKind::Bullet),
{
    entries[id as int].unwrap().record->Bullet_0
}

/// The data of the enemy that `id` means.
pub open spec fn enemy_at(entries: Entries, id: u64) -> EnemyData
    recommends
        is_kind(entries, id, EntityKind::Enemy),
{
    entries[id as int].unwrap().record->Enemy_0
}

/// What the meeting of a bullet with another entity comes to: a hit where
/// the other is an enemy that this bullet has not hit before, else nothing.
pub open spec fn strike(entries: Entries, has_ice: bool, bullet: u64, other: u64) -> Outcome
    recommends
        is_kind(entries, bullet, EntityKind::Bullet),
{
    let shot = bullet_at(entries, bullet);
    if is_kind(entries, other, EntityKind::Enemy) && !shot.hit.contains(other) {
        Outcome::Hit {
            bullet,
            enemy: other,
            knockback: shot.knockback,
            frozen: has_ice && enemy_at(entries, other).immobile.is_none(),
            spent: shot.pierce.0 <= 1,
        }
    } else {
        Outcome::Ignored
    }
}

/// What the meeting of a coin with another entity comes to: a pickup where
/// the other is the player, else nothing.
pub open spec fn pickup(entries: Entries, coin: u64, other: u64) -> Outcome
    recommends
        is_kind(entries, coin, EntityKind::Coin),
{
    if is_kind(entries, other, EntityKind::Player) {
        Outcome::Collected { coin, value: entries[coin as int].unwrap().record->Coin_0.value }
    } else {
        Outcome::Ignored
    }
}

/// What a reported pair comes to. The order within the pair does not matter
/// to what happens, only to which of two bullets or two coins is looked at.
pub open spec fn pair_outcome(
    entries: Entries,
    handled: Set<u64>,
    has_ice: bool,
    a: u64,
    b: u64,
) -> Outcome {
    if handled.contains(a) || handled.contains(b) {
        Outcome::Ignored
    } else if is_kind(entries, a, EntityKind::Bullet) {
        strike(entries, has_ice, a, b)
    } else if is_kind(entries, b, EntityKind::Bullet) {
        strike(entries, has_ice, b, a)
    } else if is_kind(entries, a, EntityKind::Coin) {
        pickup(entries, a, b)
    } else if is_kind(entries, b, EntityKind::Coin) {
        pickup(entries, b, a)
    } else {
        Outcome::Ignored
    }
}

/// The enemy after a hit by `shot`: its health less the bullet's damage and,
/// where the hit freezes, a fresh countdown of the freeze.
pub open spec fn struck(foe: EnemyData, shot: BulletView, frozen: bool) -> EnemyData {
    EnemyData {
        health: foe.health.after(shot.damage),
        immobile: if frozen {
            Some(ImmobileTimer(Timer::fresh(FREEZE_TIME, false)))
        } else {
            foe.immobile
        },
        ..foe
    }
}

/// The bullet after a hit on `enemy`: one hit fewer left, and the enemy on
/// its record.
pub open spec fn flown(shot: BulletView, enemy: u64) -> BulletView {
    BulletView { pierce: Pierce((shot.pierce.0 - 1) as u32), hit: shot.hit.insert(enemy), ..shot }
}

/// The field after an outcome has taken effect.
///
/// A hit changes the enemy as [`struck`] says and the bullet as [`flown`]
/// says, takes the bullet out of play where the hit was its last, and sets
/// both aside for the rest of the tick. A pickup adds the coin's value to the
/// purse and takes the coin out of play.
pub open spec fn after(field: Field, outcome: Outcome) -> Field {
    match outcome {
        Outcome::Ignored => field,
        Outcome::Hit { bullet, enemy, knockback, frozen, spent } => {
            let shot = bullet_at(field.entries, bullet);
            let foe = enemy_at(field.entries, enemy);
            let enemy_entry = EntryView {
                record: RecordView::Enemy(struck(foe, shot, frozen)),
                ..field.entries[enemy as int].unwrap()
            };
            let bullet_entry = if spent {
                None
            } else {
                Some(
                    EntryView {
                        record: RecordView::Bullet(flown(shot, enemy)),
                        ..field.entries[bullet as int].unwrap()
                    },
                )
            };
            Field {
                entries: field.entries.update(enemy as int, Some(enemy_entry)).update(
                    bullet as int,
                    bullet_entry,
                ),
                coins: field.coins,
                handled: field.handled.insert(bullet).insert(enemy),
            }
        },
        Outcome::Collected { coin, value } => Field {
            entries: field.entries.update(coin as int, None),
            coins: field.coins.plus(value),
            handled: field.handled,
        },
    }
}

/// The field after one reported pair, and what the pair came to.
pub open spec fn step(field: Field, has_ice: bool, pair: (u64, u64)) -> (Field, Outcome) {
    let outcome = pair_outcome(field.entries, field.handled, has_ice, pair.0, pair.1);
    (after(field, outcome), outcome)
}

/// The field after the pairs of a tick, taken in order, and what each pair
/// came to.
pub open spec fn resolved(field: Field, has_ice: bool, pairs: Seq<(u64, u64)>) -> (
    Field,
    Seq<Outcome>,
)
    decreases pairs.len(),
{
    if pairs.len() == 0 {
        (field, Seq::empty())
    } else {
        let (before, outcomes) = resolved(field, has_ice, pairs.drop_last());
        let (now, outcome) = step(before, has_ice, pairs.last());
        (now, outcomes.push(outcome))
    }
}

/// Carries out a hit of `bullet` on `enemy`, which the caller has found to
/// be due.
fn hit(registry: &mut Registry, handled: &mut IdSet, has_ice: bool, bullet: u64, enemy: u64) -> (outcome:
    Outcome)
    requires
        is_kind(old(registry)@, bullet, EntityKind::Bullet),
        is_kind(old(registry)@, enemy, EntityKind::Enemy),
        !bullet_at(old(registry)@, bullet).hit.contains(enemy),
    ensures
        outcome == strike(old(registry)@, has_ice, bullet, enemy),
        outcome is Hit,
        forall|coins: Coins|
            after(
                Field { entries: old(registry)@, coins, handled: old(handled)@ },
                outcome,
            ) == (Field { entries: final(registry)@, coins, handled: final(handled)@ }),
{
    let ghost entries = registry@;
    let ghost shot = bullet_at(entries, bullet);
    let ghost foe = enemy_at(entries, enemy);
    assert(entries[bullet as int] == Some(registry.slots@[bullet as int].unwrap()@));
    assert(entries[enemy as int] == Some(registry.slots@[enemy as int].unwrap()@));
    let count = registry.slots.len();
    assert(bullet < count && enemy < count);
    let bullet_index: usize = bullet as usize;
    let enemy_index: usize = enemy as usize;
    let mut damage = crate::components::Damage(0);
    let mut knockback = Knockback(0);
    let mut spent = false;
    match &mut registry.slots[bullet_index] {
        Some(entry) => match &mut entry.record {
            Record::Bullet(data) => {
                damage = data.damage;
                knockback = data.knockback;
                spent = data.pierce.0 <= 1;
                if !spent {
                    data.pierce = Pierce(data.pierce.0 - 1);
                    data.hit.insert(enemy);
                }
            },
            _ => {},
        },
        None => {},
    }
    if spent {
        registry.slots[bullet_index] = None;
    }
    let mut frozen = false;
    match &mut registry.slots[enemy_index] {
        Some(entry) => match &mut entry.record {
            Record::Enemy(data) => {
                data.health.take(damage);
                if has_ice && data.immobile.is_none() {
                    data.immobile = Some(ImmobileTimer(Timer::new(FREEZE_TIME, false)));
                    frozen = true;
                }
            },
            _ => {},
        },
        None => {},
    }
    handled.insert(bullet);
    handled.insert(enemy);
    let outcome = Outcome::Hit { bullet, enemy, knockback, frozen, spent };
    proof {
        assert forall|coins: Coins|
            after(Field { entries, coins, handled: old(handled)@ }, outcome) == (Field {
                entries: registry@,
                coins,
                handled: handled@,
            }) by {
            let target = after(Field { entries, coins, handled: old(handled)@ }, outcome);
            assert(target.entries =~= registry@);
        }
    }
    outcome
}

/// Resolves one reported pair.
pub fn resolve_pair(
    registry: &mut Registry,
    coins: &mut Coins,
    handled: &mut IdSet,
    has_ice: bool,
    a: u64,
    b: u64,
) -> (outcome: Outcome)
    ensures
        (Field { entries: final(registry)@, coins: *final(coins), handled: final(handled)@ }, outcome)
            == step(
            Field { entries: old(registry)@, coins: *old(coins), handled: old(handled)@ },
            has_ice,
            (a, b),
        ),
{
    if handled.contains(a) || handled.contains(b) {
        return Outcome::Ignored;
    }
    let kind_a = registry.kind(a);
    let kind_b = registry.kind(b);
    let a_is_bullet = matches!(kind_a, Some(EntityKind::Bullet));
    let b_is_bullet = matches!(kind_b, Some(EntityKind::Bullet));
    if a_is_bullet || b_is_bullet {
        let (bullet, other, other_kind) = if a_is_bullet {
            (a, b, kind_b)
        } else {
            (b, a, kind_a)
        };
        if matches!(other_kind, Some(EntityKind::Enemy)) && !registry.has_hit(bullet, other) {
            hit(registry, handled, has_ice, bullet, other)
        } else {
            Outcome::Ignored
        }
    } else {
        let a_is_coin = matches!(kind_a, Some(EntityKind::Coin));
        let b_is_coin = matches!(kind_b, Some(EntityKind::Coin));
        if a_is_coin || b_is_coin {
            let (coin, other_kind) = if a_is_coin {
                (a, kind_b)
            } else {
                (b, kind_a)
            };
            if matches!(other_kind, Some(EntityKind::Player)) {
                let value = match registry.get(coin) {
                    Some(entry) => match &entry.record {
                        Record::Coin(data) => data.value,
                        _ => 0,
                    },
                    None => 0,
                };
                coins.gain(value);
                registry.despawn(coin);
                Outcome::Collected { coin, value }
            } else {
                Outcome::Ignored
            }
        } else {
            Outcome::Ignored
        }
    }
}

/// Resolves the pairs reported for one tick, in order, and says what each
/// came to.
pub fn resolve_collisions(
    registry: &mut Registry,
    coins: &mut Coins,
    has_ice: &HasIce,
    pairs: &Vec<(u64, u64)>,
) -> (outcomes: Vec<Outcome>)
    ensures
        outcomes@.len() == pairs@.len(),
        ({
            let (field, all) = resolved(
                Field { entries: old(registry)@, coins: *old(coins), handled: Set::empty() },
                has_ice.0,
                pairs@,
            );
            &&& final(registry)@ == field.entries
            &&& *final(coins) == field.coins
            &&& outcomes@ == all
        }),
        old(registry).wf() ==> final(registry).wf(),
        final(coins).0 >= old(coins).0,
{
    let ghost start = Field { entries: registry@, coins: *coins, handled: Set::empty() };
    proof {
        if registry.wf() {
            lemma_resolved_keeps_wf(start, has_ice.0, pairs@);
        }
    }
    let mut handled = IdSet::new();
    let mut outcomes: Vec<Outcome> = Vec::new();
    let mut i: usize = 0;
    while i < pairs.len()
        invariant
            i <= pairs@.len(),
            outcomes@.len() == i,
            coins.0 >= old(coins).0,
            (Field { entries: registry@, coins: *coins, handled: handled@ }, outcomes@) == resolved(
                start,
                has_ice.0,
                pairs@.take(i as int),
            ),
        decreases pairs@.len() - i,
    {
        let (a, b) = pairs[i];
        let outcome = resolve_pair(registry, coins, &mut handled, has_ice.0, a, b);
        outcomes.push(outcome);
        proof {
            assert(pairs@.take(i + 1).drop_last() =~= pairs@.take(i as int));
            assert(pairs@.take(i + 1).last() == pairs@[i as int]);
        }
        i += 1;
    }
    proof {
        assert(pairs@.take(i as int) =~= pairs@);
    }
    outcomes
}

/// Whether the outcome is a hit of `bullet` on `enemy`.
pub open spec fn strikes(outcome: Outcome, bullet: u64, enemy: u64) -> bool {
    outcome matches Outcome::Hit { bullet: b, enemy: e, .. } && b == bullet && e == enemy
}

/// The number of hits that `bullet` made among the outcomes.
pub open spec fn hits_by(outcomes: Seq<Outcome>, bullet: u64) -> nat
    decreases outcomes.len(),
{
    if outcomes.len() == 0 {
        0
    } else {
        hits_by(outcomes.drop_last(), bullet) + if outcomes.last() matches Outcome::Hit {
            bullet: b,
            ..
        } && b == bullet {
            1nat
        } else {
            0nat
        }
    }
}

/// Each pair of a tick has its outcome.
pub proof fn lemma_one_outcome_per_pair(field: Field, has_ice: bool, pairs: Seq<(u64, u64)>)
    ensures
        resolved(field, has_ice, pairs).1.len() == pairs.len(),
        resolved(field, has_ice, pairs).0.entries.len() == field.entries.len(),
    decreases pairs.len(),
{
    if pairs.len() > 0 {
        lemma_one_outcome_per_pair(field, has_ice, pairs.drop_last());
    }
}

/// Resolving a pair keeps every entity well formed: a bullet that stays in
/// play after a hit can still hit at least one enemy.
pub proof fn lemma_step_keeps_wf(field: Field, has_ice: bool, pair: (u64, u64))
    requires
        entries_wf(field.entries),
    ensures
        entries_wf(step(field, has_ice, pair).0.entries),
{
    let (now, outcome) = step(field, has_ice, pair);
    assert forall|i: int| 0 <= i < now.entries.len() && (#[trigger] now.entries[i]).is_some() implies now.entries[i].unwrap().wf() by {
        if i < field.entries.len() && field.entries[i].is_some() {
            assert(field.entries[i].unwrap().wf());
        }
    }
}

/// Resolving the pairs of a tick keeps every entity well formed.
pub proof fn lemma_resolved_keeps_wf(field: Field, has_ice: bool, pairs: Seq<(u64, u64)>)
    requires
        entries_wf(field.entries),
    ensures
        entries_wf(resolved(field, has_ice, pairs).0.entries),
    decreases pairs.len(),
{
    if pairs.len() > 0 {
        lemma_resolved_keeps_wf(field, has_ice, pairs.drop_last());
        let before = resolved(field, has_ice, pairs.drop_last()).0;
        lemma_step_keeps_wf(before, has_ice, pairs.last());
    }
}

/// A bullet's remaining hits only ever go down, by one with each enemy it
/// hits, and the bullet leaves play exactly when they reach zero.
///
/// Over the pairs of a tick: a bullet that could still make `budget` hits
/// makes at most that many; while it has made fewer it is in play with the
/// difference left; once it has made them all it is gone.
pub proof fn lemma_pierce_counts_down(
    field: Field,
    has_ice: bool,
    pairs: Seq<(u64, u64)>,
    bullet: u64,
)
    requires
        is_kind(field.entries, bullet, EntityKind::Bullet),
        bullet_at(field.entries, bullet).pierce.0 >= 1,
    ensures
        ({
            let (end, outcomes) = resolved(field, has_ice, pairs);
            let budget = bullet_at(field.entries, bullet).pierce.0;
            let hits = hits_by(outcomes, bullet);
            &&& hits <= budget
            &&& hits < budget ==> is_kind(end.entries, bullet, EntityKind::Bullet) && bullet_at(
                end.entries,
                bullet,
            ).pierce.0 == budget - hits
            &&& hits == budget ==> !live(end.entries, bullet)
        }),
    decreases pairs.len(),
{
    if pairs.len() > 0 {
        lemma_pierce_counts_down(field, has_ice, pairs.drop_last(), bullet);
        let (before, earlier) = resolved(field, has_ice, pairs.drop_last());
        let (now, outcome) = step(before, has_ice, pairs.last());
        assert(resolved(field, has_ice, pairs).1.drop_last() =~= earlier);
    } else {
        assert(hits_by(Seq::<Outcome>::empty(), bullet) == 0);
    }
}

/// What resolving one pair does to the bullets' records of their hits: no
/// record loses an entry, no bullet comes into being, and a hit is made only
/// on an enemy that was not on the bullet's record and is on it afterwards.
pub proof fn lemma_step_records_hit(field: Field, has_ice: bool, pair: (u64, u64))
    ensures
        ({
            let (now, outcome) = step(field, has_ice, pair);
            &&& forall|b: u64| #[trigger]
                is_kind(now.entries, b, EntityKind::Bullet) ==> is_kind(
                    field.entries,
                    b,
                    EntityKind::Bullet,
                ) && bullet_at(field.entries, b).hit.subset_of(bullet_at(now.entries, b).hit)
            &&& forall|b: u64, e: u64| #[trigger]
                strikes(outcome, b, e) ==> is_kind(field.entries, b, EntityKind::Bullet)
                    && !bullet_at(field.entries, b).hit.contains(e) && (is_kind(
                    now.entries,
                    b,
                    EntityKind::Bullet,
                ) ==> bullet_at(now.entries, b).hit.contains(e))
        }),
{
}

/// No bullet hits the same enemy twice.
///
/// Over the pairs of a tick: the bullets' records of their hits only grow;
/// every hit is on an enemy that was not on the bullet's record when the tick
/// began and is on it when the tick ends, if the bullet is still in play; and
/// no two hits of the tick are of the same bullet on the same enemy. Since the
/// record is kept from tick to tick, the same holds over a bullet's whole
/// time in play.
pub proof fn lemma_no_enemy_hit_twice(field: Field, has_ice: bool, pairs: Seq<(u64, u64)>)
    ensures
        ({
            let (end, outcomes) = resolved(field, has_ice, pairs);
            &&& forall|b: u64| #[trigger]
                is_kind(end.entries, b, EntityKind::Bullet) ==> is_kind(
                    field.entries,
                    b,
                    EntityKind::Bullet,
                ) && bullet_at(field.entries, b).hit.subset_of(bullet_at(end.entries, b).hit)
            &&& forall|i: int, b: u64, e: u64|
                0 <= i < outcomes.len() && #[trigger] strikes(outcomes[i], b, e) ==> is_kind(
                    field.entries,
                    b,
                    EntityKind::Bullet,
                ) && !bullet_at(field.entries, b).hit.contains(e) && (is_kind(
                    end.entries,
                    b,
                    EntityKind::Bullet,
                ) ==> bullet_at(end.entries, b).hit.contains(e))
            &&& forall|i: int, j: int, b: u64, e: u64|
                0 <= i < j < outcomes.len() && #[trigger] strikes(outcomes[i], b, e) ==> !#[trigger] strikes(
                    outcomes[j],
                    b,
                    e,
                )
        }),
    decreases pairs.len(),
{
    if pairs.len() > 0 {
        lemma_no_enemy_hit_twice(field, has_ice, pairs.drop_last());
        let (before, earlier) = resolved(field, has_ice, pairs.drop_last());
        let (now, outcome) = step(before, has_ice, pairs.last());
        let (end, outcomes) = resolved(field, has_ice, pairs);
        lemma_step_records_hit(before, has_ice, pairs.last());
        assert(outcomes == earlier.push(outcome));
        assert forall|b: u64| #[trigger]
            is_kind(end.entries, b, EntityKind::Bullet) implies is_kind(
            field.entries,
            b,
            EntityKind::Bullet,
        ) && bullet_at(field.entries, b).hit.subset_of(bullet_at(end.entries, b).hit) by {
            assert(is_kind(before.entries, b, EntityKind::Bullet));
        }
        assert forall|i: int, b: u64, e: u64|
            0 <= i < outcomes.len() && #[trigger] strikes(outcomes[i], b, e) implies is_kind(
            field.entries,
            b,
            EntityKind::Bullet,
        ) && !bullet_at(field.entries, b).hit.contains(e) && (is_kind(
            end.entries,
            b,
            EntityKind::Bullet,
        ) ==> bullet_at(end.entries, b).hit.contains(e)) by {
            if i < earlier.len() {
                assert(strikes(earlier[i], b, e));
                if is_kind(end.entries, b, EntityKind::Bullet) {
                    assert(is_kind(before.entries, b, EntityKind::Bullet));
                }
            } else {
                assert(strikes(outcome, b, e));
                assert(is_kind(before.entries, b, EntityKind::Bullet));
            }
        }
        assert forall|i: int, j: int, b: u64, e: u64|
            0 <= i < j < outcomes.len() && #[trigger] strikes(outcomes[i], b, e) implies !#[trigger] strikes(
            outcomes[j],
            b,
            e,
        ) by {
            assert(strikes(earlier[i], b, e));
            if j < earlier.len() {
                assert(outcomes[j] == earlier[j]);
            } else if strikes(outcome, b, e) {
                assert(is_kind(before.entries, b, EntityKind::Bullet));
                assert(bullet_at(before.entries, b).hit.contains(e));
            }
        }
    }
}

/// Whether the outcome is a hit in which `id` took part, as the bullet or
/// as the enemy.
pub open spec fn takes_part(outcome: Outcome, id: u64) -> bool {
    outcome matches Outcome::Hit { bullet, enemy, .. } && (bullet == id || enemy == id)
}

/// Every entity that takes part in a hit is set aside for the rest of the
/// tick, and none that was set aside before takes part in one.
pub proof fn lemma_hits_set_aside(field: Field, has_ice: bool, pairs: Seq<(u64, u64)>)
    ensures
        ({
            let (end, outcomes) = resolved(field, has_ice, pairs);
            &&& field.handled.subset_of(end.handled)
            &&& forall|i: int, id: u64|
                0 <= i < outcomes.len() && #[trigger] takes_part(outcomes[i], id)
                    ==> end.handled.contains(id) && !field.handled.contains(id)
        }),
    decreases pairs.len(),
{
    if pairs.len() > 0 {
        lemma_hits_set_aside(field, has_ice, pairs.drop_last());
        let (before, earlier) = resolved(field, has_ice, pairs.drop_last());
        let (now, outcome) = step(before, has_ice, pairs.last());
        let outcomes = earlier.push(outcome);
        assert forall|i: int, id: u64|
            0 <= i < outcomes.len() && #[trigger] takes_part(outcomes[i], id) implies now.handled.contains(
            id,
        ) && !field.handled.contains(id) by {
            if i < earlier.len() {
                assert(takes_part(earlier[i], id));
            }
        }
    }
}

/// Within one tick an entity takes part in at most one hit: a bullet
/// strikes at most one enemy, and an enemy is struck by at most one bullet.
pub proof fn lemma_struck_once_per_tick(
    field: Field,
    has_ice: bool,
    pairs: Seq<(u64, u64)>,
    i: int,
    j: int,
    id: u64,
)
    requires
        0 <= i < j < pairs.len(),
        takes_part(resolved(field, has_ice, pairs).1[i], id),
    ensures
        !takes_part(resolved(field, has_ice, pairs).1[j], id),
    decreases pairs.len(),
{
    lemma_one_outcome_per_pair(field, has_ice, pairs.drop_last());
    let (before, earlier) = resolved(field, has_ice, pairs.drop_last());
    assert(resolved(field, has_ice, pairs).1[i] == earlier[i]);
    if j < pairs.len() - 1 {
        lemma_struck_once_per_tick(field, has_ice, pairs.drop_last(), i, j, id);
    } else {
        lemma_hits_set_aside(field, has_ice, pairs.drop_last());
        assert(before.handled.contains(id));
    }
}

/// Whether the outcome changes the entity that `id` means: `id` took part
/// in the hit, or is the coin that was picked up.
pub open spec fn touches(outcome: Outcome, id: u64) -> bool {
    takes_part(outcome, id) || (outcome matches Outcome::Collected { coin, .. } && coin == id)
}

/// Resolving the pairs of a tick brings no entity into play and changes the
/// kind of none: what is in play afterwards was in play before, as the same
/// kind.
pub proof fn lemma_kinds_stay(field: Field, has_ice: bool, pairs: Seq<(u64, u64)>)
    ensures
        forall|id: u64, kind: EntityKind| #[trigger]
            is_kind(resolved(field, has_ice, pairs).0.entries, id, kind) ==> is_kind(
                field.entries,
                id,
                kind,
            ),
    decreases pairs.len(),
{
    if pairs.len() > 0 {
        lemma_kinds_stay(field, has_ice, pairs.drop_last());
        let before = resolved(field, has_ice, pairs.drop_last()).0;
        let now = step(before, has_ice, pairs.last()).0;
        assert forall|id: u64, kind: EntityKind| #[trigger]
            is_kind(now.entries, id, kind) implies is_kind(field.entries, id, kind) by {
            assert(is_kind(before.entries, id, kind));
        }
    }
}

/// Every outcome names entities of the kinds it is about, as they were when
/// the tick began: a hit names a bullet and an enemy, a pickup names a coin.
pub proof fn lemma_outcomes_name_their_kinds(
    field: Field,
    has_ice: bool,
    pairs: Seq<(u64, u64)>,
    i: int,
)
    requires
        0 <= i < pairs.len(),
    ensures
        resolved(field, has_ice, pairs).1[i] matches Outcome::Hit { bullet, enemy, .. } ==> is_kind(
            field.entries,
            bullet,
            EntityKind::Bullet,
        ) && is_kind(field.entries, enemy, EntityKind::Enemy),
        resolved(field, has_ice, pairs).1[i] matches Outcome::Collected { coin, .. } ==> is_kind(
            field.entries,
            coin,
            EntityKind::Coin,
        ),
    decreases pairs.len(),
{
    lemma_one_outcome_per_pair(field, has_ice, pairs.drop_last());
    let (before, earlier) = resolved(field, has_ice, pairs.drop_last());
    if i < pairs.len() - 1 {
        lemma_outcomes_name_their_kinds(field, has_ice, pairs.drop_last(), i);
        assert(resolved(field, has_ice, pairs).1[i] == earlier[i]);
    } else {
        lemma_kinds_stay(field, has_ice, pairs.drop_last());
        let outcome = step(before, has_ice, pairs.last()).1;
        assert(resolved(field, has_ice, pairs).1[i] == outcome);
        match outcome {
            Outcome::Hit { bullet, enemy, .. } => {
                assert(is_kind(before.entries, bullet, EntityKind::Bullet));
                assert(is_kind(before.entries, enemy, EntityKind::Enemy));
            },
            Outcome::Collected { coin, .. } => {
                assert(is_kind(before.entries, coin, EntityKind::Coin));
            },
            Outcome::Ignored => {},
        }
    }
}

/// A coin that was picked up is out of play when the tick ends.
pub proof fn lemma_collected_is_gone(field: Field, has_ice: bool, pairs: Seq<(u64, u64)>, i: int)
    requires
        0 <= i < pairs.len(),
        resolved(field, has_ice, pairs).1[i] is Collected,
    ensures
        !live(
            resolved(field, has_ice, pairs).0.entries,
            resolved(field, has_ice, pairs).1[i]->Collected_coin,
        ),
    decreases pairs.len(),
{
    lemma_one_outcome_per_pair(field, has_ice, pairs.drop_last());
    let (before, earlier) = resolved(field, has_ice, pairs.drop_last());
    if i < pairs.len() - 1 {
        assert(resolved(field, has_ice, pairs).1[i] == earlier[i]);
        lemma_collected_is_gone(field, has_ice, pairs.drop_last(), i);
    }
}

/// An entity is changed at most once in a tick: after an outcome that
/// changes it, no later outcome of the tick does.
pub proof fn lemma_touched_once(
    field: Field,
    has_ice: bool,
    pairs: Seq<(u64, u64)>,
    i: int,
    j: int,
    id: u64,
)
    requires
        0 <= i < j < pairs.len(),
        touches(resolved(field, has_ice, pairs).1[i], id),
    ensures
        !touches(resolved(field, has_ice, pairs).1[j], id),
    decreases pairs.len(),
{
    lemma_one_outcome_per_pair(field, has_ice, pairs);
    lemma_one_outcome_per_pair(field, has_ice, pairs.drop_last());
    let (before, earlier) = resolved(field, has_ice, pairs.drop_last());
    let outcomes = resolved(field, has_ice, pairs).1;
    assert(outcomes[i] == earlier[i]);
    if j < pairs.len() - 1 {
        assert(outcomes[j] == earlier[j]);
        lemma_touched_once(field, has_ice, pairs.drop_last(), i, j, id);
    } else {
        lemma_outcomes_name_their_kinds(field, has_ice, pairs, i);
        lemma_outcomes_name_their_kinds(field, has_ice, pairs, j);
        if takes_part(outcomes[i], id) {
            if takes_part(outcomes[j], id) {
                lemma_struck_once_per_tick(field, has_ice, pairs, i, j, id);
            }
        } else if outcomes[j] matches Outcome::Collected { coin, .. } && coin == id {
            lemma_collected_is_gone(field, has_ice, pairs.drop_last(), i);
            assert(!live(before.entries, id));
        }
    }
}

/// An entity that no outcome of the tick changes is, when the tick ends, as
/// it was when the tick began.
pub proof fn lemma_untouched_stays(field: Field, has_ice: bool, pairs: Seq<(u64, u64)>, id: u64)
    requires
        id < field.entries.len(),
        forall|i: int|
            0 <= i < pairs.len() ==> !touches(#[trigger] resolved(field, has_ice, pairs).1[i], id),
    ensures
        resolved(field, has_ice, pairs).0.entries[id as int] == field.entries[id as int],
    decreases pairs.len(),
{
    if pairs.len() > 0 {
        lemma_one_outcome_per_pair(field, has_ice, pairs);
        lemma_one_outcome_per_pair(field, has_ice, pairs.drop_last());
        let (before, earlier) = resolved(field, has_ice, pairs.drop_last());
        let outcomes = resolved(field, has_ice, pairs).1;
        assert forall|i: int| 0 <= i < pairs.drop_last().len() implies !touches(
            #[trigger] resolved(field, has_ice, pairs.drop_last()).1[i],
            id,
        ) by {
            assert(outcomes[i] == earlier[i]);
        }
        lemma_untouched_stays(field, has_ice, pairs.drop_last(), id);
        assert(!touches(outcomes[pairs.len() - 1], id));
    }
}

/// Where no pair of a tick comes to a hit, no player, enemy or bullet is
/// changed by the tick.
pub proof fn lemma_no_hit_no_change(field: Field, has_ice: bool, pairs: Seq<(u64, u64)>, id: u64)
    requires
        live(field.entries, id),
        !is_kind(field.entries, id, EntityKind::Coin),
        forall|i: int|
            0 <= i < pairs.len() ==> !(#[trigger] resolved(field, has_ice, pairs).1[i] is Hit),
    ensures
        resolved(field, has_ice, pairs).0.entries[id as int] == field.entries[id as int],
{
    assert forall|i: int| 0 <= i < pairs.len() implies !touches(
        #[trigger] resolved(field, has_ice, pairs).1[i],
        id,
    ) by {
        lemma_outcomes_name_their_kinds(field, has_ice, pairs, i);
    }
    lemma_untouched_stays(field, has_ice, pairs, id);
}

/// What a hit does, over the whole of a tick, to the bullet and to the
/// enemy: the bullet and the enemy were untouched until the hit and are
/// untouched after it, so when the tick ends the enemy has lost exactly the
/// bullet's damage, and the bullet has one hit fewer left and exactly this
/// enemy more on its record, or is gone if the hit was its last.
pub proof fn lemma_hit_changes_both(field: Field, has_ice: bool, pairs: Seq<(u64, u64)>, i: int)
    requires
        0 <= i < pairs.len(),
        resolved(field, has_ice, pairs).1[i] is Hit,
    ensures
        ({
            let (end, outcomes) = resolved(field, has_ice, pairs);
            let bullet = outcomes[i]->Hit_bullet;
            let enemy = outcomes[i]->Hit_enemy;
            let frozen = outcomes[i]->Hit_frozen;
            let spent = outcomes[i]->Hit_spent;
            let shot = bullet_at(field.entries, bullet);
            let foe = enemy_at(field.entries, enemy);
            &&& is_kind(field.entries, bullet, EntityKind::Bullet)
            &&& is_kind(field.entries, enemy, EntityKind::Enemy)
            &&& outcomes[i] == strike(field.entries, has_ice, bullet, enemy)
            &&& !shot.hit.contains(enemy)
            &&& end.entries[enemy as int] == Some(
                EntryView {
                    record: RecordView::Enemy(struck(foe, shot, frozen)),
                    ..field.entries[enemy as int].unwrap()
                },
            )
            &&& end.entries[bullet as int] == if spent {
                None
            } else {
                Some(
                    EntryView {
                        record: RecordView::Bullet(flown(shot, enemy)),
                        ..field.entries[bullet as int].unwrap()
                    },
                )
            }
        }),
    decreases pairs.len(),
{
    lemma_one_outcome_per_pair(field, has_ice, pairs);
    lemma_one_outcome_per_pair(field, has_ice, pairs.drop_last());
    lemma_outcomes_name_their_kinds(field, has_ice, pairs, i);
    let (before, earlier) = resolved(field, has_ice, pairs.drop_last());
    let (end, outcomes) = resolved(field, has_ice, pairs);
    let bullet = outcomes[i]->Hit_bullet;
    let enemy = outcomes[i]->Hit_enemy;
    let last = pairs.len() - 1;
    if i < last {
        assert(outcomes[i] == earlier[i]);
        lemma_hit_changes_both(field, has_ice, pairs.drop_last(), i);
        lemma_touched_once(field, has_ice, pairs, i, last, bullet);
        lemma_touched_once(field, has_ice, pairs, i, last, enemy);
        assert(!touches(outcomes[last], bullet) && !touches(outcomes[last], enemy));
    } else {
        assert forall|j: int| 0 <= j < pairs.drop_last().len() implies !touches(
            #[trigger] resolved(field, has_ice, pairs.drop_last()).1[j],
            bullet,
        ) && !touches(resolved(field, has_ice, pairs.drop_last()).1[j], enemy) by {
            assert(outcomes[j] == earlier[j]);
            if touches(outcomes[j], bullet) {
                lemma_touched_once(field, has_ice, pairs, j, i, bullet);
            }
            if touches(outcomes[j], enemy) {
                lemma_touched_once(field, has_ice, pairs, j, i, enemy);
            }
        }
        lemma_untouched_stays(field, has_ice, pairs.drop_last(), bullet);
        lemma_untouched_stays(field, has_ice, pairs.drop_last(), enemy);
    }
}

} // verus!
