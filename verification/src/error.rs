use vstd::prelude::*;

verus! {

/// The ways an operation of the scheduler core can fail.
#[derive(Clone, Copy, Debug, PartialEq, Eq, Structural)]
pub enum EcsError {
    /// An entity id that was despawned, or never spawned, was used.
    StaleEntity,
    /// A resource was accessed before it was initialised and has no fallback.
    MissingResource,
    /// The ordering constraints admit no execution order, or a system
    /// declares two different state gates.
    SchedulingError,
    /// Two systems that would run in the same wave declare overlapping
    /// mutable access.
    QueryConflict,
}

impl EcsError {
    /// True for the errors that must stop the program at start-up.
    pub open spec fn fatal(self) -> bool {
        self == EcsError::SchedulingError || self == EcsError::QueryConflict
    }

    /// Whether the error must stop the program at start-up rather than be
    /// reported and isolated to the system that raised it.
    pub fn is_fatal(&self) -> (b: bool)
        ensures
            b == self.fatal(),
    {
        match self {
            EcsError::SchedulingError => true,
            EcsError::QueryConflict => true,
            _ => false,
        }
    }
}

} // verus!
