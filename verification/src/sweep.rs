//! The sweeps that follow collision resolution: enemies without health
//! leave play and drop a coin, and bullets that left the field are removed.

use crate::components::{EntityKind, Position};
use crate::registry::{
    live, Body, BodyMode, CoinData, Entries, Entry, EntryView, Record, RecordView, Registry,
};
use vstd::prelude::*;

verus! {

/// The speed at which a dropped coin sets off towards the player.
pub const COIN_LAUNCH_SPEED: u32 = 500;

/// The worth of a dropped coin.
pub const COIN_VALUE: u32 = 1;

/// A coin that a fallen enemy left behind.
#[derive(Clone, Copy, Debug, PartialEq, Eq, Structural)]
pub struct Drop {
    /// The enemy that fell.
    pub enemy: u64,
    /// The coin that took its place.
    pub coin: u64,
    /// Where the enemy fell and the coin lies.
    pub at: Position,
    /// Where the coin is to fly: the player's place, if there is a player.
    pub toward: Option<Position>,
    /// The speed of the coin's flight.
    pub speed: u32,
}

/// Whether the entity is an enemy with no health left.
pub open spec fn fallen(entry: Option<EntryView>) -> bool {
    entry matches Some(e) && e.record matches RecordView::Enemy(data) && data.health.depleted()
}

/// The coin that is put where an enemy fell.
pub open spec fn dropped_coin(at: Position) -> EntryView {
    EntryView {
        position: at,
        body: Body::still(BodyMode::Kinematic),
        record: RecordView::Coin(CoinData { value: COIN_VALUE }),
    }
}

/// The entities after the first `n` places were swept, with the coins that
/// were dropped. Places are swept in rising order; each fallen enemy is taken
/// out of play and a coin is put into play where it fell, under the next
/// identifier.
pub open spec fn swept(entries: Entries, toward: Option<Position>, n: nat) -> (Entries, Seq<Drop>)
    decreases n,
{
    if n == 0 {
        (entries, Seq::empty())
    } else {
        let (before, drops) = swept(entries, toward, (n - 1) as nat);
        let i = n - 1;
        if i < entries.len() && fallen(entries[i]) {
            let at = entries[i].unwrap().position;
            let drop = Drop {
                enemy: i as u64,
                coin: before.len() as u64,
                at,
                toward,
                speed: COIN_LAUNCH_SPEED,
            };
            (before.update(i, None).push(Some(dropped_coin(at))), drops.push(drop))
        } else {
            (before, drops)
        }
    }
}

/// What a partial sweep leaves in the places that were there before: the
/// places not yet swept are as they were, and the swept places hold what they
/// held unless the entity had fallen. One place is added for each drop.
pub proof fn lemma_swept_places(entries: Entries, toward: Option<Position>, n: nat)
    requires
        n <= entries.len(),
    ensures
        swept(entries, toward, n).0.len() == entries.len() + swept(entries, toward, n).1.len(),
        swept(entries, toward, n).1.len() <= n,
        forall|i: int|
            0 <= i < entries.len() ==> #[trigger] swept(entries, toward, n).0[i] == if i < n
                && fallen(entries[i]) {
                None
            } else {
                entries[i]
            },
    decreases n,
{
    if n > 0 {
        lemma_swept_places(entries, toward, (n - 1) as nat);
    }
}

/// What a partial sweep reports: each drop names a fallen enemy among the
/// places swept, the place where it fell, and the coin that was put into play
/// for it, which is the next identifier in order.
pub proof fn lemma_swept_drops(entries: Entries, toward: Option<Position>, n: nat, k: int)
    requires
        n <= entries.len(),
        swept(entries, toward, n).0.len() <= u64::MAX,
        0 <= k < swept(entries, toward, n).1.len(),
    ensures
        ({
            let (end, drops) = swept(entries, toward, n);
            let drop = drops[k];
            &&& drop.enemy < n
            &&& fallen(entries[drop.enemy as int])
            &&& drop.at == entries[drop.enemy as int].unwrap().position
            &&& drop.toward == toward
            &&& drop.speed == COIN_LAUNCH_SPEED
            &&& drop.coin == entries.len() + k
            &&& end[entries.len() + k] == Some(dropped_coin(drop.at))
            &&& forall|m: int| k < m < drops.len() ==> drop.enemy < (#[trigger] drops[m]).enemy
        }),
    decreases n,
{
    let (before, earlier) = swept(entries, toward, (n - 1) as nat);
    let (end, drops) = swept(entries, toward, n);
    let last = n - 1;
    lemma_swept_places(entries, toward, (n - 1) as nat);
    if fallen(entries[last]) {
        if k < earlier.len() {
            lemma_swept_drops(entries, toward, (n - 1) as nat, k);
            assert(drops[k] == earlier[k]);
            assert(end[entries.len() + k] == before[entries.len() + k]);
            assert forall|m: int| k < m < drops.len() implies drops[k].enemy < (#[trigger] drops[m]).enemy by {
                if m < earlier.len() {
                    assert(drops[m] == earlier[m]);
                }
            }
        } else {
            assert(end[entries.len() + k] == Some(dropped_coin(drops[k].at)));
        }
    } else {
        lemma_swept_drops(entries, toward, (n - 1) as nat, k);
    }
}

/// A partial sweep misses no fallen enemy among the places swept.
pub proof fn lemma_swept_covers(entries: Entries, toward: Option<Position>, n: nat, i: int)
    requires
        n <= entries.len() <= u64::MAX,
        0 <= i < n,
        fallen(entries[i]),
    ensures
        exists|k: int|
            0 <= k < swept(entries, toward, n).1.len() && (#[trigger] swept(
                entries,
                toward,
                n,
            ).1[k]).enemy == i,
    decreases n,
{
    let (before, earlier) = swept(entries, toward, (n - 1) as nat);
    let (end, drops) = swept(entries, toward, n);
    let last = n - 1;
    if i < last {
        lemma_swept_covers(entries, toward, (n - 1) as nat, i);
        let k = choose|k: int| 0 <= k < earlier.len() && (#[trigger] earlier[k]).enemy == i;
        assert(drops[k] == earlier[k]);
    } else {
        assert(drops[drops.len() - 1].enemy == i);
    }
}

/// The death sweep deals with each fallen enemy once: after a sweep no
/// fallen enemy is in play, so a second sweep finds nothing to do.
pub proof fn lemma_sweep_leaves_none_fallen(entries: Entries, toward: Option<Position>)
    requires
        swept(entries, toward, entries.len()).0.len() <= u64::MAX,
    ensures
        ({
            let (end, drops) = swept(entries, toward, entries.len());
            &&& forall|i: int| 0 <= i < end.len() ==> !fallen(#[trigger] end[i])
            &&& swept(end, toward, end.len()) == (end, Seq::<Drop>::empty())
        }),
{
    let (end, drops) = swept(entries, toward, entries.len());
    lemma_swept_places(entries, toward, entries.len());
    assert forall|i: int| 0 <= i < end.len() implies !fallen(#[trigger] end[i]) by {
        if i >= entries.len() {
            lemma_swept_drops(entries, toward, entries.len(), i - entries.len());
        }
    }
    lemma_nothing_fallen_nothing_swept(end, toward, end.len());
}

/// Where no enemy has fallen, a sweep changes nothing.
pub proof fn lemma_nothing_fallen_nothing_swept(entries: Entries, toward: Option<Position>, n: nat)
    requires
        n <= entries.len(),
        forall|i: int| 0 <= i < entries.len() ==> !fallen(#[trigger] entries[i]),
    ensures
        swept(entries, toward, n) == (entries, Seq::<Drop>::empty()),
    decreases n,
{
    if n > 0 {
        lemma_nothing_fallen_nothing_swept(entries, toward, (n - 1) as nat);
    }
}

/// Takes every enemy without health out of play and puts a coin into play
/// where it fell, to be launched towards `toward`. Says which coin stands
/// for which enemy, in the order of the enemies' identifiers.
pub fn death_sweep(registry: &mut Registry, toward: Option<Position>) -> (drops: Vec<Drop>)
    ensures
        (final(registry)@, drops@) == swept(old(registry)@, toward, old(registry)@.len()),
        final(registry)@.len() <= u64::MAX,
        old(registry).wf() ==> final(registry).wf(),
{
    let ghost start = registry@;
    let count = registry.slots.len();
    let mut drops: Vec<Drop> = Vec::new();
    let mut i: usize = 0;
    while i < count
        invariant
            count == start.len(),
            i <= count,
            (registry@, drops@) == swept(start, toward, i as nat),
            old(registry).wf() ==> registry.wf(),
            start == old(registry)@,
        decreases count - i,
    {
        proof {
            lemma_swept_places(start, toward, i as nat);
        }
        let at = match &registry.slots[i] {
            Some(entry) => match &entry.record {
                Record::Enemy(data) => if data.health.is_depleted() {
                    Some(entry.position)
                } else {
                    None
                },
                _ => None,
            },
            None => None,
        };
        assert(registry@[i as int] == start[i as int]);
        assert(at.is_some() == fallen(start[i as int]));
        if let Some(at) = at {
            let ghost before = registry@;
            registry.slots[i] = None;
            assert(registry@ =~= before.update(i as int, None));
            let coin = registry.spawn(
                Entry {
                    position: at,
                    body: Body::new(BodyMode::Kinematic, None, None),
                    record: Record::Coin(CoinData { value: COIN_VALUE }),
                },
            );
            drops.push(Drop { enemy: i as u64, coin, at, toward, speed: COIN_LAUNCH_SPEED });
        }
        i += 1;
    }
    let issued = registry.issued();
    assert(registry@.len() == issued);
    drops
}

/// Whether the place lies beyond the field: further from its centre than
/// the field's width along the first axis, or than its height along the
/// second.
pub open spec fn beyond(position: Position, width: u32, height: u32) -> bool {
    position.x > width || position.x < -width || position.y > height || position.y < -height
}

/// Whether the entity is a bullet that lies beyond the field.
pub open spec fn stray(entry: Option<EntryView>, width: u32, height: u32) -> bool {
    entry matches Some(e) && e.record is Bullet && beyond(e.position, width, height)
}

/// The entities with every stray bullet taken out of play.
pub open spec fn without_strays(entries: Entries, width: u32, height: u32) -> Entries {
    Seq::new(
        entries.len(),
        |i: int|
            if stray(entries[i], width, height) {
                None
            } else {
                entries[i]
            },
    )
}

/// Takes every bullet that lies beyond the field out of play and names the
/// bullets taken out, in rising order.
pub fn despawn_offscreen(registry: &mut Registry, width: u32, height: u32) -> (gone: Vec<u64>)
    ensures
        final(registry)@ == without_strays(old(registry)@, width, height),
        forall|k: int, m: int| 0 <= k < m < gone@.len() ==> gone@[k] < gone@[m],
        forall|id: u64|
            gone@.contains(id) <==> id < old(registry)@.len() && stray(
                old(registry)@[id as int],
                width,
                height,
            ),
        old(registry).wf() ==> final(registry).wf(),
{
    let ghost start = registry@;
    let count = registry.slots.len();
    let mut gone: Vec<u64> = Vec::new();
    let mut i: usize = 0;
    while i < count
        invariant
            count == start.len(),
            registry@.len() == count,
            i <= count,
            forall|j: int| 0 <= j < i ==> #[trigger] registry@[j] == without_strays(start, width, height)[j],
            forall|j: int| i <= j < count ==> #[trigger] registry@[j] == start[j],
            forall|k: int, m: int| 0 <= k < m < gone@.len() ==> gone@[k] < gone@[m],
            forall|k: int| 0 <= k < gone@.len() ==> #[trigger] gone@[k] < i,
            forall|id: u64|
                gone@.contains(id) <==> id < i && stray(start[id as int], width, height),
            start == old(registry)@,
            old(registry).wf() ==> registry.wf(),
        decreases count - i,
    {
        let out = match &registry.slots[i] {
            Some(entry) => match &entry.record {
                Record::Bullet(_) => {
                    let x = entry.position.x as i64;
                    let y = entry.position.y as i64;
                    x > width as i64 || x < -(width as i64) || y > height as i64 || y < -(height as i64)
                },
                _ => false,
            },
            None => false,
        };
        assert(registry@[i as int] == start[i as int]);
        assert(out == stray(start[i as int], width, height));
        if out {
            let ghost before = registry@;
            let ghost listed = gone@;
            registry.slots[i] = None;
            gone.push(i as u64);
            assert(registry@ =~= before.update(i as int, None));
            assert forall|id: u64| gone@.contains(id) <==> id < i + 1 && stray(
                start[id as int],
                width,
                height,
            ) by {
                if gone@.contains(id) {
                    let k = choose|k: int| 0 <= k < gone@.len() && gone@[k] == id;
                    if k < listed.len() {
                        assert(listed[k] == id);
                        assert(listed.contains(id));
                    }
                }
                if id < i + 1 && stray(start[id as int], width, height) {
                    if id < i {
                        assert(listed.contains(id));
                        let k = choose|k: int| 0 <= k < listed.len() && listed[k] == id;
                        assert(gone@[k] == id);
                    } else {
                        assert(gone@[gone@.len() - 1] == id);
                    }
                }
            }
        }
        i += 1;
    }
    assert(registry@ =~= without_strays(start, width, height));
    gone
}

} // verus!
