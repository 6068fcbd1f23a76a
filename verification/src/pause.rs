//! Halting the field while the skill tree is open, and letting it go again.

use crate::components::Vector;
use crate::registry::{Body, BodyMode, Entries, EntryView, Record, Registry};
use vstd::prelude::*;

verus! {

/// The body while the field is halted: fixed in place, its velocity and its
/// force set aside, and its force taken away.
pub open spec fn halted(body: Body) -> Body {
    Body {
        mode: BodyMode::Fixed,
        velocity: body.velocity,
        force: if body.force.is_some() {
            Some(Vector { x: 0, y: 0 })
        } else {
            None
        },
        prev_velocity: if body.velocity.is_some() {
            body.velocity
        } else {
            body.prev_velocity
        },
        prev_force: if body.force.is_some() {
            body.force
        } else {
            body.prev_force
        },
    }
}

/// The body when the field is let go: free to move, with the velocity and
/// the force that were set aside, and nothing set aside any more.
pub open spec fn released(body: Body) -> Body {
    Body {
        mode: BodyMode::Dynamic,
        velocity: if body.velocity.is_some() && body.prev_velocity.is_some() {
            body.prev_velocity
        } else {
            body.velocity
        },
        force: if body.force.is_some() && body.prev_force.is_some() {
            body.prev_force
        } else {
            body.force
        },
        prev_velocity: None,
        prev_force: None,
    }
}

/// Whether the entity is in play and is not a player.
pub open spec fn bystander(entry: Option<EntryView>) -> bool {
    entry matches Some(e) && !(e.record is Player)
}

/// The entities with every body but the player's halted.
pub open spec fn all_halted(entries: Entries) -> Entries {
    Seq::new(
        entries.len(),
        |i: int|
            if bystander(entries[i]) {
                Some(EntryView { body: halted(entries[i].unwrap().body), ..entries[i].unwrap() })
            } else {
                entries[i]
            },
    )
}

/// The entities with every body but the player's let go.
pub open spec fn all_released(entries: Entries) -> Entries {
    Seq::new(
        entries.len(),
        |i: int|
            if bystander(entries[i]) {
                Some(EntryView { body: released(entries[i].unwrap().body), ..entries[i].unwrap() })
            } else {
                entries[i]
            },
    )
}

impl Body {
    /// Halts the body.
    pub fn halt(&mut self)
        ensures
            *final(self) == halted(*old(self)),
    {
        self.mode = BodyMode::Fixed;
        if self.velocity.is_some() {
            self.prev_velocity = self.velocity;
        }
        if self.force.is_some() {
            self.prev_force = self.force;
            self.force = Some(Vector { x: 0, y: 0 });
        }
    }

    /// Lets the body go.
    pub fn release(&mut self)
        ensures
            *final(self) == released(*old(self)),
    {
        self.mode = BodyMode::Dynamic;
        if self.force.is_some() && self.prev_force.is_some() {
            self.force = self.prev_force;
        }
        if self.velocity.is_some() && self.prev_velocity.is_some() {
            self.velocity = self.prev_velocity;
        }
        self.prev_force = None;
        self.prev_velocity = None;
    }
}

/// Halts every entity but the player.
pub fn pause(registry: &mut Registry)
    ensures
        final(registry)@ == all_halted(old(registry)@),
        old(registry).wf() ==> final(registry).wf(),
{
    let ghost start = registry@;
    let count = registry.slots.len();
    let mut i: usize = 0;
    while i < count
        invariant
            count == start.len(),
            registry@.len() == count,
            i <= count,
            forall|j: int| 0 <= j < i ==> #[trigger] registry@[j] == all_halted(start)[j],
            forall|j: int| i <= j < count ==> #[trigger] registry@[j] == start[j],
            start == old(registry)@,
            old(registry).wf() ==> registry.wf(),
        decreases count - i,
    {
        let ghost before = registry@;
        assert(before[i as int] == start[i as int]);
        match &mut registry.slots[i] {
            Some(entry) => match &entry.record {
                Record::Player(_) => {},
                _ => {
                    entry.body.halt();
                },
            },
            None => {},
        }
        assert(registry@ =~= before.update(i as int, all_halted(start)[i as int]));
        i += 1;
    }
    assert(registry@ =~= all_halted(start));
}

/// Lets every entity but the player go.
pub fn unpause(registry: &mut Registry)
    ensures
        final(registry)@ == all_released(old(registry)@),
        old(registry).wf() ==> final(registry).wf(),
{
    let ghost start = registry@;
    let count = registry.slots.len();
    let mut i: usize = 0;
    while i < count
        invariant
            count == start.len(),
            registry@.len() == count,
            i <= count,
            forall|j: int| 0 <= j < i ==> #[trigger] registry@[j] == all_released(start)[j],
            forall|j: int| i <= j < count ==> #[trigger] registry@[j] == start[j],
            start == old(registry)@,
            old(registry).wf() ==> registry.wf(),
        decreases count - i,
    {
        let ghost before = registry@;
        assert(before[i as int] == start[i as int]);
        match &mut registry.slots[i] {
            Some(entry) => match &entry.record {
                Record::Player(_) => {},
                _ => {
                    entry.body.release();
                },
            },
            None => {},
        }
        assert(registry@ =~= before.update(i as int, all_released(start)[i as int]));
        i += 1;
    }
    assert(registry@ =~= all_released(start));
}

/// Letting a halted body go gives back its velocity and its force: the body
/// is as it was before the halt, free to move and with nothing set aside.
pub proof fn lemma_release_restores(body: Body)
    ensures
        released(halted(body)) == (Body {
            mode: BodyMode::Dynamic,
            prev_velocity: None,
            prev_force: None,
            ..body
        }),
{
}

/// Halting the field and letting it go leaves every entity where it was,
/// with the velocity and the force it had; only the mode of the bodies and
/// what was set aside before may differ.
pub proof fn lemma_pause_then_unpause(entries: Entries, i: int)
    requires
        0 <= i < entries.len(),
    ensures
        all_released(all_halted(entries)).len() == entries.len(),
        entries[i].is_none() ==> all_released(all_halted(entries))[i].is_none(),
        !bystander(entries[i]) ==> all_released(all_halted(entries))[i] == entries[i],
        bystander(entries[i]) ==> all_released(all_halted(entries))[i] == Some(
            EntryView {
                body: Body {
                    mode: BodyMode::Dynamic,
                    prev_velocity: None,
                    prev_force: None,
                    ..entries[i].unwrap().body
                },
                ..entries[i].unwrap()
            },
        ),
{
    assert(all_halted(entries)[i] == if bystander(entries[i]) {
        Some(EntryView { body: halted(entries[i].unwrap().body), ..entries[i].unwrap() })
    } else {
        entries[i]
    });
}

} // verus!
