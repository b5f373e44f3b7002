use vstd::prelude::*;
use vstd::slice::slice_subrange;

verus! {

/// What an event bus holds, as mathematics. Every event ever sent has a
/// sequence number, counted from zero; `events` are those still kept, the
/// first of them with number `base`; the first `carried` of them were sent
/// before the current tick began.
#[verifier::ext_equal]
pub struct BusModel<E> {
    pub base: nat,
    pub carried: nat,
    pub events: Seq<E>,
}

impl<E> BusModel<E> {
    /// The number of events ever sent.
    pub open spec fn total(self) -> nat {
        self.base + self.events.len()
    }

    /// The kept event with sequence number `number`.
    pub open spec fn at(self, number: int) -> E
        recommends
            self.base <= number < self.total(),
    {
        self.events[number - self.base]
    }

    /// The events that a reader with cursor `cursor` has not seen and can
    /// still reach, in the order they were sent.
    pub open spec fn unread(self, cursor: nat) -> Seq<E> {
        if cursor >= self.total() {
            Seq::empty()
        } else if cursor <= self.base {
            self.events
        } else {
            self.events.skip(cursor - self.base)
        }
    }

    /// The number of events that were discarded before a reader with cursor
    /// `cursor` saw them.
    pub open spec fn missed(self, cursor: nat) -> nat {
        if cursor < self.base {
            (self.base - cursor) as nat
        } else {
            0
        }
    }

    /// The bus after `value` was sent.
    pub open spec fn sent(self, value: E) -> Self {
        BusModel { events: self.events.push(value), ..self }
    }

    /// The bus after a tick ended: the events carried over from the tick
    /// before are discarded, those of the tick that ended are carried over.
    pub open spec fn rolled(self) -> Self {
        BusModel {
            base: self.base + self.carried,
            carried: (self.events.len() - self.carried) as nat,
            events: self.events.skip(self.carried as int),
        }
    }

    /// Whether `self` is a later state of the bus that was in state
    /// `earlier`: sequence numbers only grow, and an event that both keep is
    /// the same in both.
    pub open spec fn extends(self, earlier: Self) -> bool {
        &&& earlier.base <= self.base
        &&& earlier.total() <= self.total()
        &&& forall|number: int|
            self.base <= number < earlier.total() ==> #[trigger] self.at(number) == earlier.at(
                number,
            )
    }
}

/// A typed channel of events. Producers append; each consumer keeps a cursor
/// of its own in an `EventReader`, so no consumer disturbs another. An event
/// is kept until the end of the tick after the one it was sent in: a reader
/// that drains at least once in every tick sees every event.
pub struct EventBus<E> {
    pub(crate) base: usize,
    pub(crate) carried: usize,
    pub(crate) events: Vec<E>,
}

impl<E> View for EventBus<E> {
    type V = BusModel<E>;

    open(crate) spec fn view(&self) -> BusModel<E> {
        BusModel { base: self.base as nat, carried: self.carried as nat, events: self.events@ }
    }
}

impl<E> EventBus<E> {
    /// The bus's invariant: the carried events are among the kept ones, and
    /// the sequence numbers fit the machine's word.
    pub open(crate) spec fn wf(&self) -> bool {
        &&& self.carried <= self.events@.len()
        &&& self.base + self.events@.len() <= usize::MAX
    }

    /// A bus on which nothing was sent.
    pub fn new() -> (bus: EventBus<E>)
        ensures
            bus.wf(),
            bus@ == (BusModel::<E> { base: 0, carried: 0, events: Seq::empty() }),
    {
        EventBus { base: 0, carried: 0, events: Vec::new() }
    }

    /// The number of events ever sent.
    pub fn total(&self) -> (n: usize)
        requires
            self.wf(),
        ensures
            n == self@.total(),
    {
        self.base + self.events.len()
    }

    /// Appends `value` as the newest event.
    pub fn send(&mut self, value: E)
        requires
            old(self).wf(),
            old(self)@.total() < usize::MAX,
        ensures
            final(self).wf(),
            final(self)@ == old(self)@.sent(value),
            final(self)@.extends(old(self)@),
    {
        self.events.push(value);
    }

    /// Ends the tick: discards the events that were carried over from the
    /// tick before, which no reader that drains every tick can still need,
    /// and carries over the events of the tick that ends.
    pub fn end_tick(&mut self)
        requires
            old(self).wf(),
        ensures
            final(self).wf(),
            final(self)@ == old(self)@.rolled(),
            final(self)@.extends(old(self)@),
    {
        let kept = self.events.split_off(self.carried);
        self.base = self.base + self.carried;
        self.carried = kept.len();
        self.events = kept;
        assert(self@ =~= old(self)@.rolled());
    }
}

/// One consumer's place in a bus: the sequence number of the first event it
/// has not seen.
pub struct EventReader {
    pub(crate) cursor: usize,
}

impl EventReader {
    /// The sequence number of the first event this reader has not seen.
    pub open(crate) spec fn position(&self) -> nat {
        self.cursor as nat
    }

    /// A reader that has seen nothing: its first drain yields every event
    /// that the bus still keeps.
    pub fn new() -> (r: EventReader)
        ensures
            r.position() == 0,
    {
        EventReader { cursor: 0 }
    }

    /// The number of events that the bus discarded before this reader saw them.
    pub fn missed<E>(&self, bus: &EventBus<E>) -> (n: usize)
        ensures
            n == bus@.missed(self.position()),
    {
        if self.cursor < bus.base {
            bus.base - self.cursor
        } else {
            0
        }
    }

    /// Yields the events sent since this reader's last drain that the bus
    /// still keeps, oldest first, and moves the cursor past them. The bus is
    /// not changed, so other readers see the same events.
    pub fn drain<'a, E>(&mut self, bus: &'a EventBus<E>) -> (out: &'a [E])
        requires
            bus.wf(),
        ensures
            out@ == bus@.unread(old(self).position()),
            final(self).position() == bus@.total(),
    {
        let len: usize = bus.events.len();
        let total: usize = bus.base + len;
        let start: usize = if self.cursor >= total {
            len
        } else if self.cursor <= bus.base {
            0
        } else {
            self.cursor - bus.base
        };
        self.cursor = total;
        let out = slice_subrange(bus.events.as_slice(), start, len);
        assert(out@ =~= bus@.unread(old(self).position()));
        out
    }
}

/// Being a later state of the same bus carries over several steps.
pub proof fn lemma_extends_transitive<E>(a: BusModel<E>, b: BusModel<E>, c: BusModel<E>)
    requires
        b.extends(a),
        c.extends(b),
    ensures
        c.extends(a),
{
    assert forall|number: int| c.base <= number < a.total() implies #[trigger] c.at(number)
        == a.at(number) by {
        assert(c.at(number) == b.at(number));
        assert(b.at(number) == a.at(number));
    }
}

/// Cursors are independent, and every event is observed exactly once. Take
/// two readers at the same cursor. One drains when the bus is in state
/// `earlier` and again in the later state `later`; the other drains only in
/// state `later`. If neither drain comes after the bus discarded an event the
/// reader had yet to see, the first reader's two batches, joined, are the
/// second reader's one batch, and that batch holds each event sent since the
/// cursor once, in the order of sending.
pub proof fn lemma_drains_compose<E>(earlier: BusModel<E>, later: BusModel<E>, cursor: nat)
    requires
        later.extends(earlier),
        earlier.missed(cursor) == 0,
        later.missed(cursor) == 0,
        cursor <= earlier.total(),
    ensures
        earlier.unread(cursor) + later.unread(earlier.total()) == later.unread(cursor),
        later.unread(cursor).len() == later.total() - cursor,
        forall|k: int|
            0 <= k < later.total() - cursor ==> later.unread(cursor)[k] == later.at(cursor + k),
{
    let first = earlier.unread(cursor);
    let second = later.unread(earlier.total());
    let whole = later.unread(cursor);
    assert(first.len() + second.len() == whole.len());
    assert forall|k: int| 0 <= k < whole.len() implies (first + second)[k] == whole[k] by {
        if k < first.len() {
            assert(first[k] == earlier.at(cursor + k));
            assert(whole[k] == later.at(cursor + k));
        } else {
            assert(second[k - first.len()] == later.at(cursor + k));
        }
    }
    assert(first + second =~= whole);
}

/// A reader that drains in state `earlier` and next in state `later` sees
/// each event sent in between exactly once, whenever no event it had not
/// seen was discarded in between, whatever other readers did.
pub proof fn lemma_drain_sees_all_since<E>(earlier: BusModel<E>, later: BusModel<E>)
    requires
        later.extends(earlier),
        later.missed(earlier.total()) == 0,
    ensures
        later.unread(earlier.total()).len() == later.total() - earlier.total(),
        forall|k: int|
            0 <= k < later.total() - earlier.total() ==> later.unread(earlier.total())[k]
                == later.at(earlier.total() + k),
{
}

} // verus!
