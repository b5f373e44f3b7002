use rand::seq::IteratorRandom;
use vstd::prelude::*;

verus! {

/// A bag to draw from at random without repetition: every item of the
/// original list comes out once before any comes out again.
pub struct RngBag<T> {
    pub(crate) items: Vec<T>,
    pub(crate) original_items: Vec<T>,
}

/// Picks one position of `items` at random. Calls `choose` of rand's
/// `IteratorRandom` on the enumerated items, with the thread's generator,
/// and keeps the position. As rand documents, the result is `None` exactly
/// when there is no item; a position it picks lies within `items`. Which
/// position comes out is left open.
#[verifier::external_body]
fn choose_index<T>(items: &Vec<T>) -> (n: Option<usize>)
    ensures
        n is None <==> items@.len() == 0,
        n matches Some(i) ==> i < items@.len(),
{
    let mut rng = rand::thread_rng();
    items.iter().enumerate().choose(&mut rng).map(|(n, _)| n)
}

/// A copy of `items`.
fn copy_of<T: Copy>(items: &Vec<T>) -> (copy: Vec<T>)
    ensures
        copy@ == items@,
{
    let mut copy: Vec<T> = Vec::new();
    let mut i: usize = 0;
    while i < items.len()
        invariant
            i <= items@.len(),
            copy@ == items@.take(i as int),
        decreases items@.len() - i,
    {
        copy.push(items[i]);
        assert(items@.take(i + 1) =~= items@.take(i as int).push(items@[i as int]));
        i += 1;
    }
    assert(items@.take(i as int) =~= items@);
    copy
}

impl<T: Copy> RngBag<T> {
    /// The items still to be drawn before the bag is filled again.
    pub open(crate) spec fn items(&self) -> Seq<T> {
        self.items@
    }

    /// The items the bag is filled with.
    pub open(crate) spec fn original(&self) -> Seq<T> {
        self.original_items@
    }

    /// The items a draw chooses among: those left, or the original ones
    /// when none is left.
    pub open spec fn refilled(&self) -> Seq<T> {
        if self.items().len() == 0 {
            self.original()
        } else {
            self.items()
        }
    }

    /// A full bag of `items`.
    pub fn new(items: Vec<T>) -> (bag: RngBag<T>)
        ensures
            bag.items() == items@,
            bag.original() == items@,
    {
        RngBag { items: copy_of(&items), original_items: items }
    }

    /// The number of items left to draw before the bag is filled again.
    pub fn len(&self) -> (n: usize)
        ensures
            n == self.items().len(),
    {
        self.items.len()
    }

    /// The number of items the bag is filled with.
    pub fn capacity(&self) -> (n: usize)
        ensures
            n == self.original().len(),
    {
        self.original_items.len()
    }

    /// Draws the item at position `n` of the items to choose among, after
    /// filling the bag again if it was empty. The bag keeps the other items
    /// in their order.
    pub fn take(&mut self, n: usize) -> (item: T)
        requires
            n < old(self).refilled().len(),
        ensures
            item == old(self).refilled()[n as int],
            final(self).items() == old(self).refilled().remove(n as int),
            final(self).original() == old(self).original(),
    {
        if self.items.len() == 0 {
            self.items = copy_of(&self.original_items);
        }
        self.items.remove(n)
    }

    /// Draws one item at random: one of those left, or, when none is left,
    /// one of the original items after the bag was filled again. The bag
    /// must have been made with at least one item.
    pub fn get(&mut self) -> (item: T)
        requires
            old(self).original().len() > 0,
        ensures
            exists|n: int|
                0 <= n < old(self).refilled().len() && item == #[trigger] old(self).refilled()[n]
                    && final(self).items() == old(self).refilled().remove(n),
            final(self).original() == old(self).original(),
    {
        if self.items.len() == 0 {
            self.items = copy_of(&self.original_items);
        }
        let n: usize = match choose_index(&self.items) {
            Some(n) => n,
            None => 0,
        };
        let item = self.take(n);
        assert(item == old(self).refilled()[n as int]);
        item
    }
}

} // verus!
