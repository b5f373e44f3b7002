use vstd::prelude::*;
use crate::error::EcsError;

verus! {

/// A system that fails in this many ticks in a row is a fatal condition.
pub const RECURRING_FAILURE_TICKS: u32 = 3;

/// The record of one failed system invocation: which system, and how it failed.
#[derive(Clone, Copy, Debug, PartialEq, Eq, Structural)]
pub struct Diagnostic {
    pub system: usize,
    pub error: EcsError,
}

/// What the failure record holds, as mathematics: for each system the number
/// of ticks in a row, before the current one, in which it failed; whether it
/// failed in the current tick; and the diagnostics collected so far.
pub struct FailuresModel {
    pub streaks: Seq<nat>,
    pub failed: Seq<bool>,
    pub log: Seq<Diagnostic>,
}

impl FailuresModel {
    /// The streak of system `i` once the current tick has ended.
    pub open spec fn next_streak(self, i: int) -> nat {
        if self.failed[i] {
            if self.streaks[i] < u32::MAX {
                self.streaks[i] + 1
            } else {
                self.streaks[i]
            }
        } else {
            0
        }
    }

    /// Whether system `i` will have failed in `RECURRING_FAILURE_TICKS`
    /// ticks in a row once the current tick has ended.
    pub open spec fn recurring(self, i: int) -> bool {
        0 <= i < self.streaks.len() && self.next_streak(i) >= RECURRING_FAILURE_TICKS
    }
}

/// Keeps the failures of systems apart from the tick loop. A failed system is
/// reported with its identifier and its error and is skipped for the rest of
/// the tick; the other systems go on. A system that fails in
/// `RECURRING_FAILURE_TICKS` ticks in a row is reported as fatal.
pub struct Failures {
    pub(crate) streaks: Vec<u32>,
    pub(crate) failed: Vec<bool>,
    pub(crate) log: Vec<Diagnostic>,
}

impl View for Failures {
    type V = FailuresModel;

    open(crate) spec fn view(&self) -> FailuresModel {
        FailuresModel {
            streaks: Seq::new(self.streaks@.len(), |i: int| self.streaks@[i] as nat),
            failed: self.failed@,
            log: self.log@,
        }
    }
}

impl Failures {
    /// The record's invariant: it holds one streak and one flag per system.
    pub open(crate) spec fn wf(&self) -> bool {
        self.streaks@.len() == self.failed@.len()
    }

    /// The number of systems the record was made for.
    pub open spec fn system_count(&self) -> nat {
        self@.failed.len()
    }

    /// A record for `systems` systems, none of which has failed.
    pub fn new(systems: usize) -> (f: Failures)
        ensures
            f.wf(),
            f.system_count() == systems,
            f@.log.len() == 0,
            forall|i: int| 0 <= i < systems ==> f@.streaks[i] == 0 && !f@.failed[i],
    {
        let mut streaks: Vec<u32> = Vec::new();
        let mut failed: Vec<bool> = Vec::new();
        while streaks.len() < systems
            invariant
                streaks@.len() == failed@.len(),
                streaks@.len() <= systems,
                forall|i: int| 0 <= i < streaks@.len() ==> streaks@[i] == 0 && !failed@[i],
            decreases systems - streaks@.len(),
        {
            streaks.push(0);
            failed.push(false);
        }
        Failures { streaks, failed, log: Vec::new() }
    }

    /// Records that system `system` failed with `error` in the current tick.
    /// A system the record was not made for is logged and nothing else.
    pub fn report(&mut self, system: usize, error: EcsError)
        requires
            old(self).wf(),
        ensures
            final(self).wf(),
            final(self)@.streaks == old(self)@.streaks,
            final(self)@.log == old(self)@.log.push(Diagnostic { system, error }),
            system < old(self).system_count() ==> final(self)@.failed == old(self)@.failed.update(
                system as int,
                true,
            ),
            system >= old(self).system_count() ==> final(self)@.failed == old(self)@.failed,
    {
        self.log.push(Diagnostic { system, error });
        if system < self.failed.len() {
            self.failed[system] = true;
        }
        assert(self@.streaks =~= old(self)@.streaks);
    }

    /// Whether system `system` failed earlier in the current tick and is to
    /// be skipped for the rest of it.
    pub fn should_skip(&self, system: usize) -> (b: bool)
        ensures
            b == (system < self.system_count() && self@.failed[system as int]),
    {
        system < self.failed.len() && self.failed[system]
    }

    /// The diagnostics collected since the record was made.
    pub fn diagnostics(&self) -> (log: &Vec<Diagnostic>)
        ensures
            log@ == self@.log,
    {
        &self.log
    }

    /// Ends the tick. A system that failed in it has its streak raised by
    /// one, any other has it reset to zero, and no system counts as failed in
    /// the tick that begins. Returns the least system whose failure has
    /// recurred in `RECURRING_FAILURE_TICKS` ticks in a row, the fatal
    /// condition, or `None` when there is no such system.
    pub fn end_tick(&mut self) -> (fatal: Option<usize>)
        requires
            old(self).wf(),
        ensures
            final(self).wf(),
            final(self).system_count() == old(self).system_count(),
            final(self)@.log == old(self)@.log,
            forall|i: int|
                0 <= i < old(self).system_count() ==> {
                    &&& final(self)@.streaks[i] == old(self)@.next_streak(i)
                    &&& !final(self)@.failed[i]
                },
            match fatal {
                Some(s) => old(self)@.recurring(s as int) && forall|i: int|
                    0 <= i < s ==> !old(self)@.recurring(i),
                None => forall|i: int| !old(self)@.recurring(i),
            },
    {
        let n: usize = self.failed.len();
        let mut fatal: Option<usize> = None;
        let mut i: usize = 0;
        while i < n
            invariant
                i <= n,
                n == self.failed@.len(),
                n == self.streaks@.len(),
                n == old(self).failed@.len(),
                n == old(self).streaks@.len(),
                self.log@ == old(self).log@,
                forall|j: int|
                    0 <= j < i ==> {
                        &&& self.streaks@[j] == old(self)@.next_streak(j)
                        &&& !self.failed@[j]
                    },
                forall|j: int|
                    i <= j < n ==> {
                        &&& self.streaks@[j] == old(self).streaks@[j]
                        &&& self.failed@[j] == old(self).failed@[j]
                    },
                match fatal {
                    Some(s) => s < i && old(self)@.recurring(s as int) && forall|j: int|
                        0 <= j < s ==> !old(self)@.recurring(j),
                    None => forall|j: int| 0 <= j < i ==> !old(self)@.recurring(j),
                },
            decreases n - i,
        {
            let streak: u32 = if self.failed[i] {
                if self.streaks[i] < u32::MAX {
                    self.streaks[i] + 1
                } else {
                    self.streaks[i]
                }
            } else {
                0
            };
            self.streaks[i] = streak;
            self.failed[i] = false;
            if streak >= RECURRING_FAILURE_TICKS && fatal.is_none() {
                fatal = Some(i);
            }
            i += 1;
        }
        fatal
    }
}

} // verus!
