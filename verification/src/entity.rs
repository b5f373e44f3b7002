use vstd::prelude::*;
use crate::error::EcsError;

verus! {

/// An opaque handle to an entity: a slot index and the generation of the
/// slot's occupant. Two handles name the same entity only if both parts agree.
#[derive(Clone, Copy, Debug, PartialEq, Eq, Hash, Structural)]
pub struct EntityId {
    pub index: usize,
    pub generation: u64,
}

/// One row of the registry: the generation of its latest occupant and whether
/// that occupant is still alive.
pub struct Slot {
    pub generation: u64,
    pub alive: bool,
}

/// The entity registry. It hands out identifiers, recycles the rows of
/// despawned entities under a higher generation, and answers whether an
/// identifier is alive.
pub struct Entities {
    pub(crate) slots: Vec<Slot>,
    pub(crate) free: Vec<usize>,
}

impl Entities {
    /// The registry's invariant: every entry of the free list names a dead
    /// row whose generation can still grow, and no row is listed twice.
    pub open(crate) spec fn wf(&self) -> bool {
        &&& forall|i: int|
            0 <= i < self.free@.len() ==> (#[trigger] self.free@[i]) < self.slots@.len()
        &&& forall|i: int|
            0 <= i < self.free@.len() ==> {
                &&& !self.slots@[(#[trigger] self.free@[i]) as int].alive
                &&& self.slots@[self.free@[i] as int].generation < u64::MAX
            }
        &&& forall|i: int, j: int|
            0 <= i < j < self.free@.len() ==> self.free@[i] != self.free@[j]
    }

    /// The number of rows ever allocated.
    pub open(crate) spec fn capacity(&self) -> nat {
        self.slots@.len()
    }

    /// Whether `id` names an entity that was spawned and not despawned since.
    pub open(crate) spec fn alive(&self, id: EntityId) -> bool {
        &&& id.index < self.slots@.len()
        &&& self.slots@[id.index as int].alive
        &&& self.slots@[id.index as int].generation == id.generation
    }

    /// Whether row `row` has an alive occupant.
    pub open(crate) spec fn occupied(&self, row: int) -> bool {
        0 <= row < self.slots@.len() && self.slots@[row].alive
    }

    /// Whether `id` was ever returned by `spawn`.
    pub open(crate) spec fn issued(&self, id: EntityId) -> bool {
        &&& id.index < self.slots@.len()
        &&& id.generation <= self.slots@[id.index as int].generation
    }

    /// An alive identifier was issued and lies within the allocated rows, and
    /// a row has at most one alive occupant.
    pub proof fn lemma_alive(&self, a: EntityId, b: EntityId)
        ensures
            self.alive(a) ==> self.issued(a) && a.index < self.capacity() && self.occupied(
                a.index as int,
            ),
            self.alive(a) && self.alive(b) && a.index == b.index ==> a == b,
    {
    }

    /// An empty registry.
    pub fn new() -> (r: Entities)
        ensures
            r.wf(),
            r.capacity() == 0,
            forall|id: EntityId| !r.issued(id) && !r.alive(id),
            forall|row: int| !r.occupied(row),
    {
        Entities { slots: Vec::new(), free: Vec::new() }
    }

    /// The number of rows ever allocated.
    pub fn len(&self) -> (n: usize)
        ensures
            n == self.capacity(),
    {
        self.slots.len()
    }

    /// Allocates an identifier that was never issued before. A free row is
    /// reused under the next generation; otherwise a new row is appended.
    pub fn spawn(&mut self) -> (id: EntityId)
        requires
            old(self).wf(),
        ensures
            final(self).wf(),
            !old(self).issued(id),
            final(self).alive(id),
            forall|o: EntityId| o != id ==> final(self).alive(o) == old(self).alive(o),
            forall|o: EntityId| final(self).issued(o) == (old(self).issued(o) || o == id),
            id.index < final(self).capacity(),
            old(self).capacity() <= final(self).capacity() <= old(self).capacity() + 1,
            final(self).capacity() == old(self).capacity() + 1 ==> id.index == old(self).capacity(),
            !old(self).occupied(id.index as int),
            forall|row: int|
                final(self).occupied(row) == (old(self).occupied(row) || row == id.index),
    {
        match self.free.pop() {
            Some(index) => {
                let generation: u64 = self.slots[index].generation + 1;
                self.slots[index] = Slot { generation, alive: true };
                EntityId { index, generation }
            },
            None => {
                let index: usize = self.slots.len();
                self.slots.push(Slot { generation: 0, alive: true });
                EntityId { index, generation: 0 }
            },
        }
    }

    /// Whether `id` names an entity that is alive now.
    pub fn is_alive(&self, id: EntityId) -> (b: bool)
        ensures
            b == self.alive(id),
    {
        id.index < self.slots.len() && self.slots[id.index].alive && self.slots[id.index].generation
            == id.generation
    }

    /// The alive occupant of row `index`, if the row has one.
    pub fn entity_at(&self, index: usize) -> (r: Option<EntityId>)
        ensures
            match r {
                Some(id) => id.index == index && self.alive(id),
                None => forall|id: EntityId| id.index == index ==> !self.alive(id),
            },
    {
        if index < self.slots.len() && self.slots[index].alive {
            Some(EntityId { index, generation: self.slots[index].generation })
        } else {
            None
        }
    }

    /// Invalidates `id`. Fails with `StaleEntity`, changing nothing, when `id`
    /// is not alive.
    pub fn despawn(&mut self, id: EntityId) -> (r: Result<(), EcsError>)
        requires
            old(self).wf(),
        ensures
            final(self).wf(),
            final(self).capacity() == old(self).capacity(),
            forall|o: EntityId| final(self).issued(o) == old(self).issued(o),
            old(self).alive(id) ==> {
                &&& r is Ok
                &&& forall|o: EntityId| final(self).alive(o) == (old(self).alive(o) && o != id)
                &&& forall|row: int|
                    final(self).occupied(row) == (old(self).occupied(row) && row != id.index)
            },
            !old(self).alive(id) ==> {
                &&& r == Err::<(), EcsError>(EcsError::StaleEntity)
                &&& forall|o: EntityId| final(self).alive(o) == old(self).alive(o)
                &&& forall|row: int| final(self).occupied(row) == old(self).occupied(row)
            },
    {
        if !self.is_alive(id) {
            return Err(EcsError::StaleEntity);
        }
        let generation: u64 = self.slots[id.index].generation;
        self.slots[id.index] = Slot { generation, alive: false };
        if generation < u64::MAX {
            self.free.push(id.index);
        }
        Ok(())
    }
}

} // verus!
