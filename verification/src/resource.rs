use vstd::prelude::*;
use crate::error::EcsError;

verus! {

/// What the store knows of one resource key.
pub enum ResourceState<R> {
    /// Nothing was registered, or the resource was removed: access fails.
    Missing,
    /// A fallback was registered and the resource was not created yet: the
    /// first mutable access creates it from the fallback.
    Pending(R),
    /// The resource exists.
    Present(R),
}

impl<R> ResourceState<R> {
    /// The value that an access reads: the resource itself, or the fallback
    /// that it would be created from.
    pub open spec fn value(self) -> Option<R> {
        match self {
            ResourceState::Missing => None,
            ResourceState::Pending(v) => Some(v),
            ResourceState::Present(v) => Some(v),
        }
    }

    /// The state after the resource was created where a fallback waited.
    pub open spec fn settled(self) -> Self {
        match self {
            ResourceState::Pending(v) => ResourceState::Present(v),
            other => other,
        }
    }
}

/// Global singletons, one per key, apart from any entity. Keys are dense
/// indices. Whether an absent resource is created on access or makes the
/// access fail is fixed when the key is registered: `register_default`
/// gives it a fallback, without one the access fails with `MissingResource`.
pub struct Resources<R> {
    pub(crate) slots: Vec<ResourceState<R>>,
}

impl<R> Resources<R> {
    /// The state of key `key`.
    pub open(crate) spec fn state(&self, key: usize) -> ResourceState<R> {
        if key < self.slots@.len() {
            self.slots@[key as int]
        } else {
            ResourceState::Missing
        }
    }

    /// Whether every key but `key` is in the same state in `self` as in `before`.
    pub open spec fn same_but(&self, before: &Self, key: usize) -> bool {
        forall|k: usize|
            #![trigger self.state(k)]
            #![trigger before.state(k)]
            k != key ==> self.state(k) == before.state(k)
    }

    /// A store in which every key is missing.
    pub fn new() -> (s: Resources<R>)
        ensures
            forall|k: usize| s.state(k) is Missing,
    {
        Resources { slots: Vec::new() }
    }

    /// Puts `state` in the slot of `key` and returns what the slot held.
    fn put(&mut self, key: usize, state: ResourceState<R>) -> (previous: ResourceState<R>)
        ensures
            previous == old(self).state(key),
            final(self).state(key) == state,
            final(self).same_but(old(self), key),
    {
        while self.slots.len() <= key
            invariant
                forall|k: usize| #![all_triggers] self.state(k) == old(self).state(k),
            decreases key + 1 - self.slots.len(),
        {
            self.slots.push(ResourceState::Missing);
        }
        let mut cell = state;
        std::mem::swap(&mut self.slots[key], &mut cell);
        cell
    }

    /// Registers `fallback` as what the resource is created from on first
    /// access. A key that already has a resource or a fallback keeps it; the
    /// result says whether the fallback was taken.
    pub fn register_default(&mut self, key: usize, fallback: R) -> (taken: bool)
        ensures
            taken == old(self).state(key) is Missing,
            taken ==> final(self).state(key) == ResourceState::Pending(fallback),
            !taken ==> final(self).state(key) == old(self).state(key),
            final(self).same_but(old(self), key),
    {
        if key < self.slots.len() {
            match &self.slots[key] {
                ResourceState::Missing => {},
                _ => {
                    return false;
                },
            }
        }
        let _ = self.put(key, ResourceState::Pending(fallback));
        true
    }

    /// Creates the resource with value `value`, or replaces it. Returns the
    /// value that an access would have read before.
    pub fn insert(&mut self, key: usize, value: R) -> (previous: Option<R>)
        ensures
            previous == old(self).state(key).value(),
            final(self).state(key) == ResourceState::Present(value),
            final(self).same_but(old(self), key),
    {
        match self.put(key, ResourceState::Present(value)) {
            ResourceState::Missing => None,
            ResourceState::Pending(v) => Some(v),
            ResourceState::Present(v) => Some(v),
        }
    }

    /// Removes the resource, and a waiting fallback with it, and returns the
    /// value that an access would have read.
    pub fn remove(&mut self, key: usize) -> (previous: Option<R>)
        ensures
            previous == old(self).state(key).value(),
            final(self).state(key) is Missing,
            final(self).same_but(old(self), key),
    {
        if key >= self.slots.len() {
            return None;
        }
        match self.put(key, ResourceState::Missing) {
            ResourceState::Missing => None,
            ResourceState::Pending(v) => Some(v),
            ResourceState::Present(v) => Some(v),
        }
    }

    /// Whether the resource was created, by `insert` or by a first mutable
    /// access that used the fallback.
    pub fn is_initialized(&self, key: usize) -> (b: bool)
        ensures
            b == self.state(key) is Present,
    {
        if key < self.slots.len() {
            match &self.slots[key] {
                ResourceState::Present(_) => true,
                _ => false,
            }
        } else {
            false
        }
    }

    /// The resource, read only: its value, or the fallback it would be
    /// created from; `None` when the key is missing.
    pub fn get(&self, key: usize) -> (r: Option<&R>)
        ensures
            match r {
                Some(v) => self.state(key).value() == Some(*v),
                None => self.state(key) is Missing,
            },
    {
        if key < self.slots.len() {
            match &self.slots[key] {
                ResourceState::Missing => None,
                ResourceState::Pending(v) => Some(v),
                ResourceState::Present(v) => Some(v),
            }
        } else {
            None
        }
    }

    /// The resource, for writing. A resource that waited on its fallback is
    /// created from it first. What is written through the borrow becomes the
    /// resource's value; no other key changes. `None`, with nothing changed,
    /// when the key is missing.
    pub fn get_mut(&mut self, key: usize) -> (r: Option<&mut R>)
        ensures
            final(self).same_but(old(self), key),
            match r {
                Some(v) => {
                    &&& old(self).state(key).value() == Some(*v)
                    &&& final(self).state(key) == ResourceState::Present(*final(v))
                },
                None => old(self).state(key) is Missing && final(self).state(key) is Missing,
            },
    {
        if key >= self.slots.len() {
            return None;
        }
        let mut cell: ResourceState<R> = ResourceState::Missing;
        std::mem::swap(&mut self.slots[key], &mut cell);
        match cell {
            ResourceState::Missing => {},
            ResourceState::Pending(v) => {
                self.slots[key] = ResourceState::Present(v);
            },
            ResourceState::Present(v) => {
                self.slots[key] = ResourceState::Present(v);
            },
        }
        match &mut self.slots[key] {
            ResourceState::Present(v) => Some(v),
            _ => None,
        }
    }

    /// As `get`, but a missing resource is the error `MissingResource`.
    pub fn fetch(&self, key: usize) -> (r: Result<&R, EcsError>)
        ensures
            match r {
                Ok(v) => self.state(key).value() == Some(*v),
                Err(e) => self.state(key) is Missing && e == EcsError::MissingResource,
            },
    {
        match self.get(key) {
            Some(v) => Ok(v),
            None => Err(EcsError::MissingResource),
        }
    }

    /// As `get_mut`, but a missing resource is the error `MissingResource`.
    pub fn fetch_mut(&mut self, key: usize) -> (r: Result<&mut R, EcsError>)
        ensures
            final(self).same_but(old(self), key),
            match r {
                Ok(v) => {
                    &&& old(self).state(key).value() == Some(*v)
                    &&& final(self).state(key) == ResourceState::Present(*final(v))
                },
                Err(e) => {
                    &&& old(self).state(key) is Missing
                    &&& final(self).state(key) is Missing
                    &&& e == EcsError::MissingResource
                },
            },
    {
        match self.get_mut(key) {
            Some(v) => Ok(v),
            None => Err(EcsError::MissingResource),
        }
    }
}

} // verus!
