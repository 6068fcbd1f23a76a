//! The registry: every entity in play, found by its identifier.
//!
//! Identifiers are handed out in rising order and never handed out twice, so
//! an identifier that is kept after its entity is gone can never come to mean
//! another entity. Every operation on an identifier that means nothing any
//! more leaves the registry as it was.

use crate::components::{
    AttackTimer, Damage, EntityKind, Health, HitEnemies, ImmobileTimer, Knockback, Pierce,
    Position, Vector,
};
use vstd::prelude::*;

verus! {

/// How the physics treats a body.
#[derive(Clone, Copy, Debug, PartialEq, Eq, Structural)]
pub enum BodyMode {
    /// Moved by forces and collisions.
    Dynamic,
    /// Moved by its velocity alone.
    Kinematic,
    /// Not moved at all.
    Fixed,
}

/// The motion of an entity, with what was set aside while the field stands
/// still.
#[derive(Clone, Copy, Debug, PartialEq, Eq, Structural)]
pub struct Body {
    pub mode: BodyMode,
    /// The velocity, where the entity has one.
    pub velocity: Option<Vector>,
    /// The force that drives the entity, where it has one.
    pub force: Option<Vector>,
    /// The velocity set aside when the field was halted.
    pub prev_velocity: Option<Vector>,
    /// The force set aside when the field was halted.
    pub prev_force: Option<Vector>,
}

/// What a player carries.
#[derive(Clone, Copy, Debug, PartialEq, Eq, Structural)]
pub struct PlayerData {
    pub health: Health,
}

/// What an enemy carries.
#[derive(Clone, Copy, Debug, PartialEq, Eq, Structural)]
pub struct EnemyData {
    pub health: Health,
    /// The damage of one attack on the player.
    pub damage: Damage,
    pub attack: AttackTimer,
    /// The countdown of a freeze, while the enemy is frozen.
    pub immobile: Option<ImmobileTimer>,
}

/// What a bullet carries.
pub struct BulletData {
    pub pierce: Pierce,
    pub damage: Damage,
    pub knockback: Knockback,
    pub hit: HitEnemies,
}

/// What a coin on the field carries.
#[derive(Clone, Copy, Debug, PartialEq, Eq, Structural)]
pub struct CoinData {
    /// The coins that picking it up is worth.
    pub value: u32,
}

/// The data of one entity, by its kind.
pub enum Record {
    Player(PlayerData),
    Enemy(EnemyData),
    Bullet(BulletData),
    Coin(CoinData),
}

/// One entity.
pub struct Entry {
    pub position: Position,
    pub body: Body,
    pub record: Record,
}

/// A bullet's data with the record of its hits as a set.
pub struct BulletView {
    pub pierce: Pierce,
    pub damage: Damage,
    pub knockback: Knockback,
    pub hit: Set<u64>,
}

/// What [`Record`] stands for.
pub enum RecordView {
    Player(PlayerData),
    Enemy(EnemyData),
    Bullet(BulletView),
    Coin(CoinData),
}

/// What [`Entry`] stands for.
pub struct EntryView {
    pub position: Position,
    pub body: Body,
    pub record: RecordView,
}

/// What a registry stands for: one place for each identifier handed out so
/// far, holding the entity while it is in play and nothing once it is gone.
pub type Entries = Seq<Option<EntryView>>;

impl Body {
    /// A body in the given mode that has neither velocity nor force.
    pub open spec fn still(mode: BodyMode) -> Body {
        Body { mode, velocity: None, force: None, prev_velocity: None, prev_force: None }
    }

    /// A body in the given mode with the given velocity and force, nothing
    /// set aside.
    pub fn new(mode: BodyMode, velocity: Option<Vector>, force: Option<Vector>) -> (body: Body)
        ensures
            body == (Body { mode, velocity, force, prev_velocity: None, prev_force: None }),
    {
        Body { mode, velocity, force, prev_velocity: None, prev_force: None }
    }
}

impl View for BulletData {
    type V = BulletView;

    open spec fn view(&self) -> BulletView {
        BulletView {
            pierce: self.pierce,
            damage: self.damage,
            knockback: self.knockback,
            hit: self.hit@,
        }
    }
}

impl View for Record {
    type V = RecordView;

    open spec fn view(&self) -> RecordView {
        match *self {
            Record::Player(data) => RecordView::Player(data),
            Record::Enemy(data) => RecordView::Enemy(data),
            Record::Bullet(data) => RecordView::Bullet(data@),
            Record::Coin(data) => RecordView::Coin(data),
        }
    }
}

impl View for Entry {
    type V = EntryView;

    open spec fn view(&self) -> EntryView {
        EntryView { position: self.position, body: self.body, record: self.record@ }
    }
}

impl RecordView {
    /// The kind of entity that the record belongs to.
    pub open spec fn kind(self) -> EntityKind {
        match self {
            RecordView::Player(_) => EntityKind::Player,
            RecordView::Enemy(_) => EntityKind::Enemy,
            RecordView::Bullet(_) => EntityKind::Bullet,
            RecordView::Coin(_) => EntityKind::Coin,
        }
    }

    /// The health, for the kinds that have one.
    pub open spec fn health(self) -> Option<Health> {
        match self {
            RecordView::Player(data) => Some(data.health),
            RecordView::Enemy(data) => Some(data.health),
            _ => None,
        }
    }

    /// The record with its health replaced, for the kinds that have one; the
    /// record itself for the others.
    pub open spec fn with_health(self, health: Health) -> RecordView {
        match self {
            RecordView::Player(data) => RecordView::Player(PlayerData { health }),
            RecordView::Enemy(data) => RecordView::Enemy(EnemyData { health, ..data }),
            _ => self,
        }
    }
}

impl EntryView {
    /// A bullet in play can still hit at least one enemy.
    pub open spec fn wf(self) -> bool {
        self.record matches RecordView::Bullet(bullet) ==> bullet.pierce.0 >= 1
    }
}

impl Record {
    /// The kind of entity that the record belongs to.
    pub fn kind(&self) -> (kind: EntityKind)
        ensures
            kind == self@.kind(),
    {
        match self {
            Record::Player(_) => EntityKind::Player,
            Record::Enemy(_) => EntityKind::Enemy,
            Record::Bullet(_) => EntityKind::Bullet,
            Record::Coin(_) => EntityKind::Coin,
        }
    }
}

/// Whether `id` means an entity in play.
pub open spec fn live(entries: Entries, id: u64) -> bool {
    id < entries.len() && entries[id as int].is_some()
}

/// The kind of the entity that `id` means, if it means one.
pub open spec fn kind_of(entries: Entries, id: u64) -> Option<EntityKind> {
    if live(entries, id) {
        Some(entries[id as int].unwrap().record.kind())
    } else {
        None
    }
}

/// Whether `id` means an entity of the given kind.
pub open spec fn is_kind(entries: Entries, id: u64, kind: EntityKind) -> bool {
    kind_of(entries, id) == Some(kind)
}

/// The entries with the entity that `id` means taken out, if it means one.
pub open spec fn without(entries: Entries, id: u64) -> Entries {
    if live(entries, id) {
        entries.update(id as int, None)
    } else {
        entries
    }
}

/// The entries with every entity taken out of play. The identifiers handed
/// out so far stay used.
pub open spec fn cleared(entries: Entries) -> Entries {
    Seq::new(entries.len(), |i: int| None)
}

/// Every entity in play is well formed.
pub open spec fn entries_wf(entries: Entries) -> bool {
    forall|i: int| 0 <= i < entries.len() && (#[trigger] entries[i]).is_some() ==> entries[i].unwrap().wf()
}

/// The registry of entities. The place of an entity in `slots` is its
/// identifier.
pub struct Registry {
    pub slots: Vec<Option<Entry>>,
}

impl View for Registry {
    type V = Entries;

    open spec fn view(&self) -> Entries {
        Seq::new(
            self.slots@.len(),
            |i: int|
                match self.slots@[i] {
                    Some(entry) => Some(entry@),
                    None => None,
                },
        )
    }
}

impl Registry {
    /// Every entity in play is well formed.
    pub open spec fn wf(&self) -> bool {
        entries_wf(self@)
    }

    /// A registry that has handed out no identifier.
    pub fn new() -> (registry: Registry)
        ensures
            registry@ == Seq::<Option<EntryView>>::empty(),
            registry.wf(),
    {
        let registry = Registry { slots: Vec::new() };
        assert(registry@ =~= Seq::<Option<EntryView>>::empty());
        registry
    }

    /// The number of identifiers handed out so far, which is the next one.
    pub fn issued(&self) -> (count: u64)
        ensures
            count == self@.len(),
    {
        self.slots.len() as u64
    }

    /// Puts an entity into play and hands out its identifier: the next one
    /// in order, which no entity has had before.
    pub fn spawn(&mut self, entry: Entry) -> (id: u64)
        ensures
            id == old(self)@.len(),
            final(self)@ == old(self)@.push(Some(entry@)),
            old(self).wf() && entry@.wf() ==> final(self).wf(),
    {
        let id = self.slots.len() as u64;
        self.slots.push(Some(entry));
        assert(self@ =~= old(self)@.push(Some(entry@)));
        id
    }

    /// Whether `id` means an entity in play.
    pub fn contains(&self, id: u64) -> (found: bool)
        ensures
            found == live(self@, id),
    {
        id < self.slots.len() as u64 && self.slots[id as usize].is_some()
    }

    /// The entity that `id` means, if it means one.
    pub fn get(&self, id: u64) -> (found: Option<&Entry>)
        ensures
            found.is_some() == live(self@, id),
            found matches Some(entry) ==> Some(entry@) == self@[id as int] && Some(*entry)
                == self.slots@[id as int],
    {
        if id < self.slots.len() as u64 {
            self.slots[id as usize].as_ref()
        } else {
            None
        }
    }

    /// The kind of the entity that `id` means, if it means one.
    pub fn kind(&self, id: u64) -> (kind: Option<EntityKind>)
        ensures
            kind == kind_of(self@, id),
    {
        match self.get(id) {
            Some(entry) => Some(entry.record.kind()),
            None => None,
        }
    }

    /// The place of the entity that `id` means, if it means one.
    pub fn position(&self, id: u64) -> (position: Option<Position>)
        ensures
            position == if live(self@, id) {
                Some(self@[id as int].unwrap().position)
            } else {
                None
            },
    {
        match self.get(id) {
            Some(entry) => Some(entry.position),
            None => None,
        }
    }

    /// The motion of the entity that `id` means, if it means one.
    pub fn body(&self, id: u64) -> (body: Option<Body>)
        ensures
            body == if live(self@, id) {
                Some(self@[id as int].unwrap().body)
            } else {
                None
            },
    {
        match self.get(id) {
            Some(entry) => Some(entry.body),
            None => None,
        }
    }

    /// The health of the entity that `id` means, if it means one that has
    /// health.
    pub fn health(&self, id: u64) -> (health: Option<Health>)
        ensures
            health == if live(self@, id) {
                self@[id as int].unwrap().record.health()
            } else {
                None
            },
    {
        match self.get(id) {
            Some(entry) => match &entry.record {
                Record::Player(data) => Some(data.health),
                Record::Enemy(data) => Some(data.health),
                _ => None,
            },
            None => None,
        }
    }

    /// The hits that the bullet `id` has left, if `id` means a bullet.
    pub fn pierce(&self, id: u64) -> (pierce: Option<Pierce>)
        ensures
            pierce == if live(self@, id) {
                match self@[id as int].unwrap().record {
                    RecordView::Bullet(bullet) => Some(bullet.pierce),
                    _ => None,
                }
            } else {
                None
            },
    {
        match self.get(id) {
            Some(entry) => match &entry.record {
                Record::Bullet(data) => Some(data.pierce),
                _ => None,
            },
            None => None,
        }
    }

    /// Whether `bullet` means a bullet that has hit `enemy`.
    pub fn has_hit(&self, bullet: u64, enemy: u64) -> (hit: bool)
        ensures
            hit == (live(self@, bullet) && match self@[bullet as int].unwrap().record {
                RecordView::Bullet(data) => data.hit.contains(enemy),
                _ => false,
            }),
    {
        match self.get(bullet) {
            Some(entry) => match &entry.record {
                Record::Bullet(data) => data.hit.contains(enemy),
                _ => false,
            },
            None => false,
        }
    }

    /// Moves the entity that `id` means, and says whether `id` means one.
    pub fn set_position(&mut self, id: u64, position: Position) -> (done: bool)
        ensures
            done == live(old(self)@, id),
            final(self)@ == if done {
                old(self)@.update(
                    id as int,
                    Some(EntryView { position, ..old(self)@[id as int].unwrap() }),
                )
            } else {
                old(self)@
            },
            old(self).wf() ==> final(self).wf(),
    {
        if id < self.slots.len() as u64 {
            match &mut self.slots[id as usize] {
                Some(entry) => {
                    entry.position = position;
                    assert(self@ =~= old(self)@.update(
                        id as int,
                        Some(EntryView { position, ..old(self)@[id as int].unwrap() }),
                    ));
                    true
                },
                None => {
                    assert(self@ =~= old(self)@);
                    false
                },
            }
        } else {
            false
        }
    }

    /// Replaces the motion of the entity that `id` means, and says whether
    /// `id` means one.
    pub fn set_body(&mut self, id: u64, body: Body) -> (done: bool)
        ensures
            done == live(old(self)@, id),
            final(self)@ == if done {
                old(self)@.update(id as int, Some(EntryView { body, ..old(self)@[id as int].unwrap() }))
            } else {
                old(self)@
            },
            old(self).wf() ==> final(self).wf(),
    {
        if id < self.slots.len() as u64 {
            match &mut self.slots[id as usize] {
                Some(entry) => {
                    entry.body = body;
                    assert(self@ =~= old(self)@.update(
                        id as int,
                        Some(EntryView { body, ..old(self)@[id as int].unwrap() }),
                    ));
                    true
                },
                None => {
                    assert(self@ =~= old(self)@);
                    false
                },
            }
        } else {
            false
        }
    }

    /// Replaces the health of the entity that `id` means, and says whether
    /// `id` means an entity that has health.
    pub fn set_health(&mut self, id: u64, health: Health) -> (done: bool)
        ensures
            done == (live(old(self)@, id) && old(self)@[id as int].unwrap().record.health().is_some()),
            final(self)@ == if done {
                old(self)@.update(
                    id as int,
                    Some(
                        EntryView {
                            record: old(self)@[id as int].unwrap().record.with_health(health),
                            ..old(self)@[id as int].unwrap()
                        },
                    ),
                )
            } else {
                old(self)@
            },
            old(self).wf() ==> final(self).wf(),
    {
        if id < self.slots.len() as u64 {
            let done = match &mut self.slots[id as usize] {
                Some(entry) => match &mut entry.record {
                    Record::Player(data) => {
                        data.health = health;
                        true
                    },
                    Record::Enemy(data) => {
                        data.health = health;
                        true
                    },
                    _ => false,
                },
                None => false,
            };
            proof {
                if done {
                    assert(self@ =~= old(self)@.update(
                        id as int,
                        Some(
                            EntryView {
                                record: old(self)@[id as int].unwrap().record.with_health(health),
                                ..old(self)@[id as int].unwrap()
                            },
                        ),
                    ));
                } else {
                    assert(self@ =~= old(self)@);
                }
            }
            done
        } else {
            false
        }
    }

    /// Takes the entity that `id` means out of play, with all it carries,
    /// and says whether `id` meant one. Doing so again changes nothing.
    pub fn despawn(&mut self, id: u64) -> (done: bool)
        ensures
            done == live(old(self)@, id),
            final(self)@ == without(old(self)@, id),
            !live(final(self)@, id),
            old(self).wf() ==> final(self).wf(),
    {
        if id < self.slots.len() as u64 {
            let done = self.slots[id as usize].is_some();
            self.slots[id as usize] = None;
            assert(self@ =~= without(old(self)@, id));
            done
        } else {
            false
        }
    }

    /// Takes every entity out of play. The identifiers handed out so far
    /// stay used.
    pub fn despawn_all(&mut self)
        ensures
            final(self)@ == cleared(old(self)@),
            final(self).wf(),
    {
        let count = self.slots.len();
        let mut i: usize = 0;
        while i < count
            invariant
                count == self.slots@.len(),
                i <= count,
                forall|j: int| 0 <= j < i ==> self.slots@[j].is_none(),
            decreases count - i,
        {
            self.slots[i] = None;
            i += 1;
        }
        assert(self@ =~= cleared(old(self)@));
    }
}

/// Taking an entity out of play twice is the same as taking it out once.
pub proof fn lemma_despawn_idempotent(entries: Entries, id: u64)
    ensures
        without(without(entries, id), id) == without(entries, id),
{
}

/// Identifiers are never handed out twice: the identifier that the next
/// entity gets lies beyond every identifier in use, whatever has gone in
/// between, and putting the entity into play changes the meaning of no other
/// identifier.
pub proof fn lemma_identifiers_not_reused(entries: Entries, gone: u64, entry: EntryView)
    ensures
        without(entries, gone).len() == entries.len(),
        forall|id: u64| live(entries, id) ==> id < entries.len(),
        forall|id: u64|
            id != entries.len() ==> live(entries.push(Some(entry)), id) == live(entries, id),
        forall|id: u64|
            live(entries, id) ==> entries.push(Some(entry))[id as int] == entries[id as int],
{
}

} // verus!
