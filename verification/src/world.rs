use vstd::prelude::*;
use crate::component::ComponentStore;
use crate::entity::{Entities, EntityId};
use crate::error::EcsError;

verus! {

/// What a world holds, as mathematics: the identifiers ever issued, those
/// alive, the component of each (entity, kind) pair, and the despawns that
/// wait for the end of the tick.
#[verifier::ext_equal]
pub struct WorldModel<C> {
    pub issued: Set<EntityId>,
    pub alive: Set<EntityId>,
    pub components: Map<(EntityId, usize), C>,
    pub doomed: Seq<EntityId>,
}

impl<C> WorldModel<C> {
    /// The world before anything was spawned.
    pub open spec fn empty() -> Self {
        WorldModel {
            issued: Set::empty(),
            alive: Set::empty(),
            components: Map::empty(),
            doomed: Seq::empty(),
        }
    }

    /// Only issued identifiers are alive, and only alive entities own components.
    pub open spec fn valid(self) -> bool {
        &&& self.alive.subset_of(self.issued)
        &&& forall|key: (EntityId, usize)| #[trigger]
            self.components.dom().contains(key) ==> self.alive.contains(key.0)
    }

    /// Whether `id` was issued once and is no longer alive.
    pub open spec fn retired(self, id: EntityId) -> bool {
        self.issued.contains(id) && !self.alive.contains(id)
    }

    /// Whether entity `id` has a component of kind `kind`.
    pub open spec fn has(self, id: EntityId, kind: usize) -> bool {
        self.components.dom().contains((id, kind))
    }

    /// The component of kind `kind` of entity `id`, if it has one.
    pub open spec fn component(self, id: EntityId, kind: usize) -> Option<C> {
        if self.has(id, kind) {
            Some(self.components[(id, kind)])
        } else {
            None
        }
    }

    /// Whether `id` is alive, has every kind in `required` and none in `excluded`.
    pub open spec fn matches(self, id: EntityId, required: Set<usize>, excluded: Set<usize>) -> bool {
        &&& self.alive.contains(id)
        &&& forall|k: usize| required.contains(k) ==> #[trigger] self.has(id, k)
        &&& forall|k: usize| excluded.contains(k) ==> !#[trigger] self.has(id, k)
    }

    /// The world after `id` was issued and came alive.
    pub open spec fn spawned(self, id: EntityId) -> Self {
        WorldModel { issued: self.issued.insert(id), alive: self.alive.insert(id), ..self }
    }

    /// The world without the entities in `gone` and without their components.
    pub open spec fn without(self, gone: Set<EntityId>) -> Self {
        WorldModel {
            alive: self.alive.difference(gone),
            components: Map::new(
                |key: (EntityId, usize)| self.components.dom().contains(key) && !gone.contains(key.0),
                |key: (EntityId, usize)| self.components[key],
            ),
            ..self
        }
    }

    /// The world after `id` was despawned.
    pub open spec fn despawned(self, id: EntityId) -> Self {
        self.without(set![id])
    }

    /// The world after `value` became the component of kind `kind` of `id`.
    pub open spec fn inserted(self, id: EntityId, kind: usize, value: C) -> Self {
        WorldModel { components: self.components.insert((id, kind), value), ..self }
    }

    /// The world after the component of kind `kind` was taken from `id`.
    pub open spec fn removed(self, id: EntityId, kind: usize) -> Self {
        WorldModel { components: self.components.remove((id, kind)), ..self }
    }

    /// The world after a despawn of `id` was put off to the end of the tick.
    pub open spec fn deferred(self, id: EntityId) -> Self {
        WorldModel { doomed: self.doomed.push(id), ..self }
    }

    /// The world after despawns of `ids` were put off to the end of the tick.
    pub open spec fn deferred_all(self, ids: Seq<EntityId>) -> Self {
        WorldModel { doomed: self.doomed + ids, ..self }
    }

    /// The world after every waiting despawn was carried out.
    pub open spec fn applied(self) -> Self {
        WorldModel { doomed: Seq::empty(), ..self.without(self.doomed.to_set()) }
    }
}

/// A filter over entities: the kinds an entity must have and the kinds it
/// must not have. The two sets share no kind.
pub struct Query {
    required: Vec<usize>,
    excluded: Vec<usize>,
}

impl Query {
    /// The kinds a matching entity has.
    pub closed spec fn required(&self) -> Set<usize> {
        self.required@.to_set()
    }

    /// The kinds a matching entity lacks.
    pub closed spec fn excluded(&self) -> Set<usize> {
        self.excluded@.to_set()
    }

    /// Builds the filter. `None` exactly when some kind is both required and
    /// excluded.
    pub fn new(required: Vec<usize>, excluded: Vec<usize>) -> (r: Option<Query>)
        ensures
            match r {
                Some(q) => {
                    &&& q.required() == required@.to_set()
                    &&& q.excluded() == excluded@.to_set()
                    &&& q.required().disjoint(q.excluded())
                },
                None => !required@.to_set().disjoint(excluded@.to_set()),
            },
    {
        let mut i: usize = 0;
        while i < required.len()
            invariant
                i <= required.len(),
                forall|a: int, b: int|
                    0 <= a < i && 0 <= b < excluded.len() ==> required[a] != excluded[b],
            decreases required.len() - i,
        {
            let mut j: usize = 0;
            while j < excluded.len()
                invariant
                    i < required.len(),
                    j <= excluded.len(),
                    forall|b: int| 0 <= b < j ==> required[i as int] != excluded[b],
                decreases excluded.len() - j,
            {
                if required[i] == excluded[j] {
                    assert(required@.to_set().contains(required[i as int]));
                    assert(excluded@.to_set().contains(excluded[j as int]));
                    return None;
                }
                j += 1;
            }
            i += 1;
        }
        Some(Query { required, excluded })
    }
}

/// Entities and their components. An operation on an identifier that is not
/// alive fails with `StaleEntity` and changes nothing.
pub struct World<C> {
    pub(crate) entities: Entities,
    pub(crate) store: ComponentStore<C>,
    pub(crate) doomed: Vec<EntityId>,
}

impl<C> View for World<C> {
    type V = WorldModel<C>;

    open(crate) spec fn view(&self) -> WorldModel<C> {
        WorldModel {
            issued: Set::new(|id: EntityId| self.entities.issued(id)),
            alive: Set::new(|id: EntityId| self.entities.alive(id)),
            components: Map::new(
                |key: (EntityId, usize)|
                    self.entities.alive(key.0) && self.store.value(
                        key.0.index as int,
                        key.1 as int,
                    ) is Some,
                |key: (EntityId, usize)| self.store.value(key.0.index as int, key.1 as int)->0,
            ),
            doomed: self.doomed@,
        }
    }
}

impl<C> World<C> {
    /// The world's invariant: the registry is well formed and only rows with
    /// an alive occupant hold components.
    pub open(crate) spec fn wf(&self) -> bool {
        &&& self.entities.wf()
        &&& forall|r: int, k: int|
            (#[trigger] self.store.value(r, k)) is Some ==> self.entities.occupied(r)
    }

    /// A well-formed world has a valid model.
    pub proof fn lemma_view_valid(&self)
        requires
            self.wf(),
        ensures
            self@.valid(),
    {
    }

    /// A world with no entity.
    pub fn new() -> (w: World<C>)
        ensures
            w.wf(),
            w@ == WorldModel::<C>::empty(),
    {
        let w = World { entities: Entities::new(), store: ComponentStore::new(), doomed: Vec::new() };
        assert(w@ =~= WorldModel::<C>::empty());
        w
    }

    /// Creates an entity without components under an identifier that was
    /// never issued before.
    pub fn spawn(&mut self) -> (id: EntityId)
        requires
            old(self).wf(),
        ensures
            final(self).wf(),
            !old(self)@.issued.contains(id),
            final(self)@ == old(self)@.spawned(id),
    {
        let id = self.entities.spawn();
        assert(self@ =~= old(self)@.spawned(id));
        id
    }

    /// Whether `id` names an entity that is alive now.
    pub fn is_alive(&self, id: EntityId) -> (b: bool)
        ensures
            b == self@.alive.contains(id),
    {
        self.entities.is_alive(id)
    }

    /// Despawns `id` at once: the identifier becomes invalid and all its
    /// components are dropped. Fails with `StaleEntity` when `id` is not alive.
    pub fn despawn(&mut self, id: EntityId) -> (r: Result<(), EcsError>)
        requires
            old(self).wf(),
        ensures
            final(self).wf(),
            old(self)@.alive.contains(id) ==> r is Ok && final(self)@ == old(self)@.despawned(id),
            !old(self)@.alive.contains(id) ==> r == Err::<(), EcsError>(EcsError::StaleEntity)
                && final(self)@ == old(self)@,
    {
        match self.entities.despawn(id) {
            Err(e) => {
                assert(self@ =~= old(self)@);
                Err(e)
            },
            Ok(()) => {
                self.store.clear_row(id.index);
                assert(self@ =~= old(self)@.despawned(id));
                Ok(())
            },
        }
    }

    /// Makes `value` the component of kind `kind` of `id`, in place of any
    /// earlier one. Components of other kinds and of other entities stay as
    /// they are. Fails with `StaleEntity` when `id` is not alive.
    pub fn insert(&mut self, id: EntityId, kind: usize, value: C) -> (r: Result<(), EcsError>)
        requires
            old(self).wf(),
        ensures
            final(self).wf(),
            old(self)@.alive.contains(id) ==> r is Ok && final(self)@ == old(self)@.inserted(
                id,
                kind,
                value,
            ),
            !old(self)@.alive.contains(id) ==> r == Err::<(), EcsError>(EcsError::StaleEntity)
                && final(self)@ == old(self)@,
    {
        if !self.entities.is_alive(id) {
            return Err(EcsError::StaleEntity);
        }
        let _ = self.store.insert(id.index, kind, value);
        assert(self@ =~= old(self)@.inserted(id, kind, value));
        Ok(())
    }

    /// Takes the component of kind `kind` from `id` and returns it, `None`
    /// when `id` has none. Fails with `StaleEntity` when `id` is not alive.
    pub fn remove(&mut self, id: EntityId, kind: usize) -> (r: Result<Option<C>, EcsError>)
        requires
            old(self).wf(),
        ensures
            final(self).wf(),
            final(self)@ == old(self)@.removed(id, kind),
            old(self)@.alive.contains(id) ==> r == Ok::<Option<C>, EcsError>(
                old(self)@.component(id, kind),
            ),
            !old(self)@.alive.contains(id) ==> r == Err::<Option<C>, EcsError>(
                EcsError::StaleEntity,
            ),
    {
        if !self.entities.is_alive(id) {
            assert(self@ =~= old(self)@.removed(id, kind));
            return Err(EcsError::StaleEntity);
        }
        let previous = self.store.remove(id.index, kind);
        assert(self@ =~= old(self)@.removed(id, kind));
        Ok(previous)
    }

    /// Whether `id` is alive and has a component of kind `kind`.
    pub fn has(&self, id: EntityId, kind: usize) -> (b: bool)
        ensures
            b == self@.has(id, kind),
    {
        self.entities.is_alive(id) && self.store.contains(id.index, kind)
    }

    /// The component of kind `kind` of `id`: `Ok(None)` when the entity has
    /// none, `StaleEntity` when `id` is not alive.
    pub fn get(&self, id: EntityId, kind: usize) -> (r: Result<Option<&C>, EcsError>)
        ensures
            self@.alive.contains(id) ==> r is Ok && match r->Ok_0 {
                Some(c) => self@.component(id, kind) == Some(*c),
                None => self@.component(id, kind) is None,
            },
            !self@.alive.contains(id) ==> r is Err && r->Err_0 == EcsError::StaleEntity,
    {
        if !self.entities.is_alive(id) {
            return Err(EcsError::StaleEntity);
        }
        Ok(self.store.get(id.index, kind))
    }

    /// A mutable borrow of the component of kind `kind` of `id`. What is
    /// written through the borrow becomes the component; nothing else changes.
    /// `Ok(None)` when the entity has no such component, `StaleEntity` when
    /// `id` is not alive.
    pub fn get_mut(&mut self, id: EntityId, kind: usize) -> (r: Result<Option<&mut C>, EcsError>)
        requires
            old(self).wf(),
        ensures
            final(self).wf(),
            !old(self)@.alive.contains(id) ==> r is Err && r->Err_0 == EcsError::StaleEntity
                && final(self)@ == old(self)@,
            old(self)@.alive.contains(id) ==> r is Ok && match r->Ok_0 {
                Some(c) => {
                    &&& old(self)@.component(id, kind) == Some(*c)
                    &&& final(self)@ == old(self)@.inserted(id, kind, *final(c))
                },
                None => old(self)@.component(id, kind) is None && final(self)@ == old(self)@,
            },
    {
        if !self.entities.is_alive(id) {
            return Err(EcsError::StaleEntity);
        }
        let cell = self.store.get_mut(id.index, kind);
        Ok(cell)
    }

    /// Mutable borrows of two components of `id` at once, of the kinds `first`
    /// and `second`, for a system that works on several kinds of one entity
    /// jointly. What is written through them becomes the components; nothing
    /// else changes. `Ok(None)` when the kinds are the same or the entity
    /// lacks one of them, `StaleEntity` when `id` is not alive.
    pub fn get_pair_mut(&mut self, id: EntityId, first: usize, second: usize) -> (r: Result<
        Option<(&mut C, &mut C)>,
        EcsError,
    >)
        requires
            old(self).wf(),
        ensures
            final(self).wf(),
            !old(self)@.alive.contains(id) ==> r is Err && r->Err_0 == EcsError::StaleEntity
                && final(self)@ == old(self)@,
            old(self)@.alive.contains(id) ==> r is Ok && match r->Ok_0 {
                Some((a, b)) => {
                    &&& first != second
                    &&& old(self)@.component(id, first) == Some(*a)
                    &&& old(self)@.component(id, second) == Some(*b)
                    &&& final(self)@ == old(self)@.inserted(id, first, *final(a)).inserted(
                        id,
                        second,
                        *final(b),
                    )
                },
                None => {
                    &&& first == second || old(self)@.component(id, first) is None || old(
                        self,
                    )@.component(id, second) is None
                    &&& final(self)@ == old(self)@
                },
            },
    {
        if !self.entities.is_alive(id) {
            return Err(EcsError::StaleEntity);
        }
        Ok(self.store.get_pair_mut(id.index, first, second))
    }

    /// Whether row `row` holds every kind that `q` requires and none that it
    /// excludes.
    fn row_matches(&self, row: usize, q: &Query) -> (b: bool)
        ensures
            b == {
                &&& forall|k: usize|
                    q.required().contains(k) ==> (#[trigger] self.store.value(
                        row as int,
                        k as int,
                    )) is Some
                &&& forall|k: usize|
                    q.excluded().contains(k) ==> (#[trigger] self.store.value(
                        row as int,
                        k as int,
                    )) is None
            },
    {
        let mut i: usize = 0;
        while i < q.required.len()
            invariant
                i <= q.required.len(),
                forall|j: int|
                    0 <= j < i ==> self.store.value(row as int, q.required@[j] as int) is Some,
            decreases q.required.len() - i,
        {
            if !self.store.contains(row, q.required[i]) {
                assert(q.required@.to_set().contains(q.required@[i as int]));
                return false;
            }
            i += 1;
        }
        let mut i: usize = 0;
        while i < q.excluded.len()
            invariant
                i <= q.excluded.len(),
                forall|j: int|
                    0 <= j < q.required.len() ==> self.store.value(
                        row as int,
                        q.required@[j] as int,
                    ) is Some,
                forall|j: int|
                    0 <= j < i ==> self.store.value(row as int, q.excluded@[j] as int) is None,
            decreases q.excluded.len() - i,
        {
            if self.store.contains(row, q.excluded[i]) {
                assert(q.excluded@.to_set().contains(q.excluded@[i as int]));
                return false;
            }
            i += 1;
        }
        true
    }

    /// The entities that match `q` at this moment: those alive that have
    /// every required kind and no excluded one, each once, by ascending row.
    /// Later insertions and removals do not change a list already handed out.
    pub fn query(&self, q: &Query) -> (out: Vec<EntityId>)
        ensures
            forall|id: EntityId|
                out@.contains(id) <==> self@.matches(id, q.required(), q.excluded()),
            forall|i: int, j: int| 0 <= i < j < out@.len() ==> out@[i].index < out@[j].index,
    {
        let mut out: Vec<EntityId> = Vec::new();
        let n: usize = self.entities.len();
        let mut row: usize = 0;
        while row < n
            invariant
                row <= n,
                n == self.entities.capacity(),
                forall|id: EntityId|
                    out@.contains(id) <==> (id.index < row && self@.matches(
                        id,
                        q.required(),
                        q.excluded(),
                    )),
                forall|i: int, j: int| 0 <= i < j < out@.len() ==> out@[i].index < out@[j].index,
                forall|i: int| 0 <= i < out@.len() ==> out@[i].index < row,
            decreases n - row,
        {
            let ghost before = out@;
            match self.entities.entity_at(row) {
                Some(id) => {
                    if self.row_matches(row, q) {
                        out.push(id);
                        assert(out@[out@.len() - 1] == id);
                        assert(forall|o: EntityId|
                            out@.contains(o) <==> (before.contains(o) || o == id)) by {
                            assert forall|o: EntityId| out@.contains(o) implies (before.contains(o)
                                || o == id) by {
                                let i = choose|i: int| 0 <= i < out@.len() && out@[i] == o;
                                if i < before.len() {
                                    assert(before[i] == o);
                                }
                            }
                            assert forall|o: EntityId| before.contains(o) implies out@.contains(
                                o,
                            ) by {
                                let i = choose|i: int| 0 <= i < before.len() && before[i] == o;
                                assert(out@[i] == o);
                            }
                        }
                        assert(self@.matches(id, q.required(), q.excluded()));
                    } else {
                        assert(out@ == before);
                        assert(!self@.matches(id, q.required(), q.excluded())) by {
                            if exists|k: usize|
                                q.required().contains(k) && !(self.store.value(
                                    row as int,
                                    k as int,
                                ) is Some) {
                                let k = choose|k: usize|
                                    q.required().contains(k) && !(self.store.value(
                                        row as int,
                                        k as int,
                                    ) is Some);
                                assert(!self@.has(id, k));
                            } else {
                                let k = choose|k: usize|
                                    q.excluded().contains(k) && !(self.store.value(
                                        row as int,
                                        k as int,
                                    ) is None);
                                assert(self@.has(id, k));
                            }
                        }
                    }
                    assert forall|o: EntityId|
                        out@.contains(o) <==> (o.index < row + 1 && self@.matches(
                            o,
                            q.required(),
                            q.excluded(),
                        )) by {
                        assert(before.contains(o) <==> (o.index < row && self@.matches(
                            o,
                            q.required(),
                            q.excluded(),
                        )));
                        assert(out@.contains(o) <==> (before.contains(o) || (o == id
                            && self@.matches(id, q.required(), q.excluded()))));
                        if o.index == row && self@.alive.contains(o) {
                            assert(o == id);
                        }
                    }
                },
                None => {
                    assert forall|o: EntityId|
                        out@.contains(o) <==> (o.index < row + 1 && self@.matches(
                            o,
                            q.required(),
                            q.excluded(),
                        )) by {
                        if o.index == row {
                            assert(!self@.alive.contains(o));
                        }
                    }
                },
            }
            row += 1;
        }
        assert(forall|id: EntityId| self@.alive.contains(id) ==> id.index < n);
        out
    }

    /// Asks for every entity that matches `q` now to be despawned when
    /// `apply_deferred` next runs, and returns these entities, by ascending
    /// row. Until then nothing else changes.
    pub fn defer_matching(&mut self, q: &Query) -> (ids: Vec<EntityId>)
        requires
            old(self).wf(),
        ensures
            final(self).wf(),
            forall|id: EntityId|
                ids@.contains(id) <==> old(self)@.matches(id, q.required(), q.excluded()),
            forall|i: int, j: int| 0 <= i < j < ids@.len() ==> ids@[i].index < ids@[j].index,
            final(self)@ == old(self)@.deferred_all(ids@),
    {
        let ids = self.query(q);
        let mut i: usize = 0;
        assert(self@ =~= old(self)@.deferred_all(ids@.take(0)));
        while i < ids.len()
            invariant
                self.wf(),
                i <= ids@.len(),
                self@ == old(self)@.deferred_all(ids@.take(i as int)),
            decreases ids@.len() - i,
        {
            self.doomed.push(ids[i]);
            assert(ids@.take(i + 1) =~= ids@.take(i as int).push(ids@[i as int]));
            assert(self@ =~= old(self)@.deferred_all(ids@.take(i + 1)));
            i += 1;
        }
        assert(ids@.take(i as int) =~= ids@);
        ids
    }

    /// Asks for `id` to be despawned when `apply_deferred` next runs, so that
    /// a list of entities being walked stays valid. Fails with `StaleEntity`
    /// when `id` is not alive now.
    pub fn defer_despawn(&mut self, id: EntityId) -> (r: Result<(), EcsError>)
        requires
            old(self).wf(),
        ensures
            final(self).wf(),
            old(self)@.alive.contains(id) ==> r is Ok && final(self)@ == old(self)@.deferred(id),
            !old(self)@.alive.contains(id) ==> r == Err::<(), EcsError>(EcsError::StaleEntity)
                && final(self)@ == old(self)@,
    {
        if !self.entities.is_alive(id) {
            return Err(EcsError::StaleEntity);
        }
        self.doomed.push(id);
        assert(self@ =~= old(self)@.deferred(id));
        Ok(())
    }

    /// Carries out the despawns that `defer_despawn` collected, at the fixed
    /// point of the tick where structure may change. An entity that was
    /// despawned in the meantime is passed over.
    pub fn apply_deferred(&mut self)
        requires
            old(self).wf(),
        ensures
            final(self).wf(),
            final(self)@ == old(self)@.applied(),
    {
        let mut i: usize = 0;
        while i < self.doomed.len()
            invariant
                self.wf(),
                i <= self.doomed.len(),
                self.doomed@ == old(self).doomed@,
                self@ == old(self)@.without(old(self).doomed@.take(i as int).to_set()),
            decreases self.doomed.len() - i,
        {
            let id = self.doomed[i];
            let ghost before = self@;
            let ghost gone = old(self).doomed@.take(i as int).to_set();
            let ghost gone_next = old(self).doomed@.take(i + 1).to_set();
            assert(forall|o: EntityId| gone_next.contains(o) <==> (gone.contains(o) || o == id)) by {
                let s = old(self).doomed@.take(i as int);
                let t = old(self).doomed@.take(i + 1);
                assert(t =~= s.push(id));
                assert forall|o: EntityId| gone_next.contains(o) implies (gone.contains(o) || o
                    == id) by {
                    let j = choose|j: int| 0 <= j < t.len() && t[j] == o;
                    if j < s.len() {
                        assert(s[j] == o);
                    }
                }
                assert forall|o: EntityId| (gone.contains(o) || o == id) implies gone_next.contains(
                    o,
                ) by {
                    if gone.contains(o) {
                        let j = choose|j: int| 0 <= j < s.len() && s[j] == o;
                        assert(t[j] == o);
                    } else {
                        assert(t[i as int] == o);
                    }
                }
            }
            let _ = self.despawn(id);
            assert(self@ =~= old(self)@.without(gone_next));
            i += 1;
        }
        assert(old(self).doomed@.take(i as int) =~= old(self).doomed@);
        self.doomed = Vec::new();
        assert(self@ =~= old(self)@.applied());
    }
}

/// One step that a world can take, for statements about every sequence of steps.
pub enum WorldOp<C> {
    Spawn(EntityId),
    Despawn(EntityId),
    Insert(EntityId, usize, C),
    Remove(EntityId, usize),
    Defer(EntityId),
    Apply,
}

impl<C> WorldModel<C> {
    /// Whether the world's functions can take step `op` from this state: a
    /// spawn yields an identifier that was not issued before.
    pub open spec fn admits(self, op: WorldOp<C>) -> bool {
        match op {
            WorldOp::Spawn(id) => !self.issued.contains(id),
            _ => true,
        }
    }

    /// The state after step `op`, as the contracts of the world's functions
    /// give it. A step on an identifier that is not alive changes nothing.
    pub open spec fn step(self, op: WorldOp<C>) -> Self {
        match op {
            WorldOp::Spawn(id) => self.spawned(id),
            WorldOp::Despawn(id) => if self.alive.contains(id) {
                self.despawned(id)
            } else {
                self
            },
            WorldOp::Insert(id, kind, value) => if self.alive.contains(id) {
                self.inserted(id, kind, value)
            } else {
                self
            },
            WorldOp::Remove(id, kind) => self.removed(id, kind),
            WorldOp::Defer(id) => if self.alive.contains(id) {
                self.deferred(id)
            } else {
                self
            },
            WorldOp::Apply => self.applied(),
        }
    }

    /// Whether each step of `ops` is admitted by the state it is taken from.
    pub open spec fn admits_all(self, ops: Seq<WorldOp<C>>) -> bool
        decreases ops.len(),
    {
        ops.len() == 0 || (self.admits(ops[0]) && self.step(ops[0]).admits_all(ops.skip(1)))
    }

    /// The state after the steps of `ops`, taken in order.
    pub open spec fn run(self, ops: Seq<WorldOp<C>>) -> Self
        decreases ops.len(),
    {
        if ops.len() == 0 {
            self
        } else {
            self.step(ops[0]).run(ops.skip(1))
        }
    }
}

/// A despawn, at once or at the end of the tick, retires the identifier.
pub proof fn lemma_despawn_retires<C>(m: WorldModel<C>, id: EntityId)
    requires
        m.valid(),
        m.alive.contains(id),
    ensures
        m.despawned(id).retired(id),
        m.doomed.contains(id) ==> m.applied().retired(id),
{
}

/// Every step keeps the model valid.
pub proof fn lemma_step_valid<C>(m: WorldModel<C>, op: WorldOp<C>)
    requires
        m.valid(),
        m.admits(op),
    ensures
        m.step(op).valid(),
{
}

/// Whatever sequence of spawns, despawns and other steps follows, an
/// identifier that was despawned is never alive again, so no query returns it.
pub proof fn lemma_retired_never_returns<C>(
    m: WorldModel<C>,
    ops: Seq<WorldOp<C>>,
    id: EntityId,
    required: Set<usize>,
    excluded: Set<usize>,
)
    requires
        m.retired(id),
        m.admits_all(ops),
    ensures
        m.run(ops).retired(id),
        !m.run(ops).matches(id, required, excluded),
    decreases ops.len(),
{
    if ops.len() > 0 {
        lemma_retired_never_returns(m.step(ops[0]), ops.skip(1), id, required, excluded);
    }
}

/// An entity that has a kind which the query excludes does not match it.
pub proof fn lemma_excluded_kind_hides<C>(
    m: WorldModel<C>,
    id: EntityId,
    kind: usize,
    required: Set<usize>,
    excluded: Set<usize>,
)
    requires
        m.has(id, kind),
        excluded.contains(kind),
    ensures
        !m.matches(id, required, excluded),
{
}

/// Once the one excluded kind that an entity has is removed from it, the
/// entity matches the query, provided it is alive and has the required kinds.
pub proof fn lemma_removing_excluded_kind_reveals<C>(
    m: WorldModel<C>,
    id: EntityId,
    kind: usize,
    required: Set<usize>,
    excluded: Set<usize>,
)
    requires
        m.alive.contains(id),
        !required.contains(kind),
        forall|k: usize| required.contains(k) ==> m.has(id, k),
        forall|k: usize| excluded.contains(k) && k != kind ==> !m.has(id, k),
    ensures
        m.removed(id, kind).matches(id, required, excluded),
{
    let after = m.removed(id, kind);
    assert forall|k: usize| required.contains(k) implies #[trigger] after.has(id, k) by {
        assert(m.has(id, k));
    }
    assert forall|k: usize| excluded.contains(k) implies !#[trigger] after.has(id, k) by {
        if k != kind {
            assert(!m.has(id, k));
        }
    }
}

} // verus!
