use vstd::prelude::*;

verus! {

/// Component storage: one column per component kind, one cell per entity row.
/// Kinds and rows are dense indices; a column grows when a cell beyond its end
/// is first written, so cells that were never written read as absent.
pub struct ComponentStore<C> {
    pub(crate) columns: Vec<Vec<Option<C>>>,
}

impl<C> ComponentStore<C> {
    /// The component of kind `kind` stored for row `row`, if any.
    pub open(crate) spec fn value(&self, row: int, kind: int) -> Option<C> {
        if 0 <= kind < self.columns@.len() && 0 <= row < self.columns@[kind]@.len() {
            self.columns@[kind]@[row]
        } else {
            None
        }
    }

    /// Whether every cell but `(row, kind)` holds the same in `self` as in `before`.
    pub open spec fn same_but(&self, before: &Self, row: int, kind: int) -> bool {
        forall|r: int, k: int|
            #![trigger self.value(r, k)]
            #![trigger before.value(r, k)]
            !(r == row && k == kind) ==> self.value(r, k) == before.value(r, k)
    }

    /// Whether every cell outside row `row` holds the same in `self` as in `before`.
    pub open spec fn same_but_row(&self, before: &Self, row: int) -> bool {
        forall|r: int, k: int|
            #![trigger self.value(r, k)]
            #![trigger before.value(r, k)]
            r != row ==> self.value(r, k) == before.value(r, k)
    }

    /// A store with no component in it.
    pub fn new() -> (s: ComponentStore<C>)
        ensures
            forall|r: int, k: int| s.value(r, k) is None,
    {
        ComponentStore { columns: Vec::new() }
    }

    /// Whether row `row` has a component of kind `kind`.
    pub fn contains(&self, row: usize, kind: usize) -> (b: bool)
        ensures
            b == self.value(row as int, kind as int) is Some,
    {
        kind < self.columns.len() && row < self.columns[kind].len()
            && self.columns[kind][row].is_some()
    }

    /// The component of kind `kind` of row `row`; `None` when the row has
    /// none, whether or not the kind was ever stored for any row.
    pub fn get(&self, row: usize, kind: usize) -> (r: Option<&C>)
        ensures
            match r {
                Some(c) => self.value(row as int, kind as int) == Some(*c),
                None => self.value(row as int, kind as int) is None,
            },
    {
        if kind < self.columns.len() && row < self.columns[kind].len() {
            self.columns[kind][row].as_ref()
        } else {
            None
        }
    }

    /// A mutable borrow of the component of kind `kind` of row `row`. What the
    /// caller writes through it becomes the stored component; no other cell
    /// changes.
    pub fn get_mut(&mut self, row: usize, kind: usize) -> (r: Option<&mut C>)
        ensures
            final(self).same_but(old(self), row as int, kind as int),
            match r {
                Some(c) => {
                    &&& old(self).value(row as int, kind as int) == Some(*c)
                    &&& final(self).value(row as int, kind as int) == Some(*final(c))
                },
                None => {
                    &&& old(self).value(row as int, kind as int) is None
                    &&& final(self).value(row as int, kind as int) is None
                },
            },
    {
        if kind < self.columns.len() && row < self.columns[kind].len() {
            match &mut self.columns[kind][row] {
                Some(c) => Some(c),
                None => None,
            }
        } else {
            None
        }
    }

    /// Mutable borrows of two components of row `row` at once, of the kinds
    /// `first` and `second`, which must differ. What the caller writes
    /// through them becomes the stored components; no other cell changes.
    /// `None`, with nothing changed, when the kinds are the same or the row
    /// lacks one of them.
    pub fn get_pair_mut(&mut self, row: usize, first: usize, second: usize) -> (r: Option<
        (&mut C, &mut C),
    >)
        ensures
            forall|r2: int, k: int|
                #![trigger final(self).value(r2, k)]
                !(r2 == row && (k == first || k == second)) ==> final(self).value(r2, k) == old(
                    self,
                ).value(r2, k),
            match r {
                Some((a, b)) => {
                    &&& first != second
                    &&& old(self).value(row as int, first as int) == Some(*a)
                    &&& old(self).value(row as int, second as int) == Some(*b)
                    &&& final(self).value(row as int, first as int) == Some(*final(a))
                    &&& final(self).value(row as int, second as int) == Some(*final(b))
                },
                None => {
                    &&& first == second || old(self).value(row as int, first as int) is None
                        || old(self).value(row as int, second as int) is None
                    &&& final(self).value(row as int, first as int) == old(self).value(
                        row as int,
                        first as int,
                    )
                    &&& final(self).value(row as int, second as int) == old(self).value(
                        row as int,
                        second as int,
                    )
                },
            },
    {
        if first == second || !self.contains(row, first) || !self.contains(row, second) {
            return None;
        }
        let swapped = first > second;
        let lo: usize = if swapped { second } else { first };
        let hi: usize = if swapped { first } else { second };
        let (head, tail) = self.columns.as_mut_slice().split_at_mut(hi);
        let (front, _) = head.split_at_mut(lo + 1);
        match (front.last_mut(), tail.first_mut()) {
            (Some(low), Some(high)) => match (&mut low[row], &mut high[row]) {
                (Some(x), Some(y)) => if swapped {
                    Some((y, x))
                } else {
                    Some((x, y))
                },
                _ => None,
            },
            _ => None,
        }
    }

    /// Stores `value` as the component of kind `kind` of row `row`, replacing
    /// the previous one, which is returned. No other cell changes.
    pub fn insert(&mut self, row: usize, kind: usize, value: C) -> (previous: Option<C>)
        ensures
            previous == old(self).value(row as int, kind as int),
            final(self).value(row as int, kind as int) == Some(value),
            final(self).same_but(old(self), row as int, kind as int),
    {
        while self.columns.len() <= kind
            invariant
                forall|r: int, k: int|
                    #![all_triggers]
                    self.value(r, k) == old(self).value(r, k),
            decreases kind + 1 - self.columns.len(),
        {
            self.columns.push(Vec::new());
        }
        while self.columns[kind].len() <= row
            invariant
                kind < self.columns.len(),
                forall|r: int, k: int|
                    #![all_triggers]
                    self.value(r, k) == old(self).value(r, k),
            decreases row + 1 - self.columns[kind as int].len(),
        {
            self.columns[kind].push(None);
        }
        let mut cell: Option<C> = Some(value);
        std::mem::swap(&mut self.columns[kind][row], &mut cell);
        cell
    }

    /// Takes the component of kind `kind` away from row `row` and returns it;
    /// `None`, with nothing changed, when the row has none.
    pub fn remove(&mut self, row: usize, kind: usize) -> (previous: Option<C>)
        ensures
            previous == old(self).value(row as int, kind as int),
            final(self).value(row as int, kind as int) is None,
            final(self).same_but(old(self), row as int, kind as int),
    {
        if kind < self.columns.len() && row < self.columns[kind].len() {
            let mut cell: Option<C> = None;
            std::mem::swap(&mut self.columns[kind][row], &mut cell);
            cell
        } else {
            None
        }
    }

    /// Drops every component of row `row`. No other row changes.
    pub fn clear_row(&mut self, row: usize)
        ensures
            forall|k: int| final(self).value(row as int, k) is None,
            final(self).same_but_row(old(self), row as int),
    {
        let mut kind: usize = 0;
        while kind < self.columns.len()
            invariant
                kind <= self.columns.len(),
                self.columns.len() == old(self).columns.len(),
                forall|k: int| 0 <= k < kind ==> (#[trigger] self.value(row as int, k)) is None,
                forall|k: int|
                    #![all_triggers]
                    kind <= k ==> self.value(row as int, k) == old(self).value(row as int, k),
                self.same_but_row(old(self), row as int),
            decreases self.columns.len() - kind,
        {
            let ghost before = *self;
            if row < self.columns[kind].len() {
                self.columns[kind][row] = None;
            }
            assert(self.same_but(&before, row as int, kind as int));
            kind += 1;
        }
    }
}

} // verus!
