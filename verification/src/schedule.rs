use vstd::prelude::*;
use crate::error::EcsError;
use crate::order::{concat, flatten, graph_of, layers, square, waves_view, Graph};
use crate::state::{Gate, StateMachine, GATE_COUNT};

verus! {

/// Whether some value occurs in both sequences.
pub open spec fn overlaps(a: Seq<usize>, b: Seq<usize>) -> bool {
    exists|x: usize| a.contains(x) && b.contains(x)
}

/// Whether some value occurs in both vectors.
pub fn overlap(a: &Vec<usize>, b: &Vec<usize>) -> (r: bool)
    ensures
        r == overlaps(a@, b@),
{
    let mut i: usize = 0;
    while i < a.len()
        invariant
            i <= a.len(),
            forall|p: int, q: int| 0 <= p < i && 0 <= q < b.len() ==> a[p] != b[q],
        decreases a.len() - i,
    {
        let mut j: usize = 0;
        while j < b.len()
            invariant
                i < a.len(),
                j <= b.len(),
                forall|q: int| 0 <= q < j ==> a[i as int] != b[q],
            decreases b.len() - j,
        {
            if a[i] == b[j] {
                assert(a@.contains(a[i as int]) && b@.contains(b[j as int]));
                return true;
            }
            j += 1;
        }
        i += 1;
    }
    assert(!overlaps(a@, b@)) by {
        if overlaps(a@, b@) {
            let x = choose|x: usize| a@.contains(x) && b@.contains(x);
            let p = choose|p: int| 0 <= p < a@.len() && a@[p] == x;
            let q = choose|q: int| 0 <= q < b@.len() && b@[q] == x;
            assert(a[p] != b[q]);
        }
    }
    false
}

/// What a system declares of itself, as mathematics.
pub struct SystemModel {
    pub name: Seq<char>,
    pub gates: Seq<Gate>,
    pub labels: Seq<usize>,
    pub before: Seq<usize>,
    pub after: Seq<usize>,
    pub reads: Seq<usize>,
    pub writes: Seq<usize>,
    pub resource_reads: Seq<usize>,
    pub resource_writes: Seq<usize>,
}

impl SystemModel {
    /// A system named `name` that declares nothing.
    pub open spec fn named(name: Seq<char>) -> SystemModel {
        SystemModel {
            name,
            gates: Seq::empty(),
            labels: Seq::empty(),
            before: Seq::empty(),
            after: Seq::empty(),
            reads: Seq::empty(),
            writes: Seq::empty(),
            resource_reads: Seq::empty(),
            resource_writes: Seq::empty(),
        }
    }

    /// The system with one more gate declared.
    pub open spec fn gate(self, gate: Gate) -> SystemModel {
        SystemModel { gates: self.gates.push(gate), ..self }
    }

    /// The system with one more label.
    pub open spec fn label(self, label: usize) -> SystemModel {
        SystemModel { labels: self.labels.push(label), ..self }
    }

    /// The system, to run before the systems labelled `label`.
    pub open spec fn before(self, label: usize) -> SystemModel {
        SystemModel { before: self.before.push(label), ..self }
    }

    /// The system, to run after the systems labelled `label`.
    pub open spec fn after(self, label: usize) -> SystemModel {
        SystemModel { after: self.after.push(label), ..self }
    }

    /// The system, reading components of kind `kind`.
    pub open spec fn reads(self, kind: usize) -> SystemModel {
        SystemModel { reads: self.reads.push(kind), ..self }
    }

    /// The system, writing components of kind `kind`.
    pub open spec fn writes(self, kind: usize) -> SystemModel {
        SystemModel { writes: self.writes.push(kind), ..self }
    }

    /// The system, reading the resource `key`.
    pub open spec fn reads_resource(self, key: usize) -> SystemModel {
        SystemModel { resource_reads: self.resource_reads.push(key), ..self }
    }

    /// The system, writing the resource `key`.
    pub open spec fn writes_resource(self, key: usize) -> SystemModel {
        SystemModel { resource_writes: self.resource_writes.push(key), ..self }
    }

    /// Whether the system declares two different state gates.
    pub open spec fn gate_conflict(self) -> bool {
        exists|a: int, b: int|
            0 <= a < self.gates.len() && 0 <= b < self.gates.len() && (#[trigger] self.gates[a])
                != (#[trigger] self.gates[b])
    }

    /// Whether the system runs in the pass of `gate`. A system without a
    /// gate runs in the update pass of every state.
    pub open spec fn runs_in(self, gate: Gate) -> bool {
        if self.gates.len() == 0 {
            gate is OnUpdate
        } else {
            self.gates.contains(gate)
        }
    }

    /// Whether this system has to run before `other`: it names one of the
    /// other's labels in `before`, or the other names one of its labels in
    /// `after`.
    pub open spec fn precedes(self, other: SystemModel) -> bool {
        overlaps(self.before, other.labels) || overlaps(other.after, self.labels)
    }

    /// Whether the two systems may not run at the same time: one writes a
    /// component kind or a resource that the other reads or writes.
    pub open spec fn conflicts_with(self, other: SystemModel) -> bool {
        ||| overlaps(self.writes, other.writes)
        ||| overlaps(self.writes, other.reads)
        ||| overlaps(other.writes, self.reads)
        ||| overlaps(self.resource_writes, other.resource_writes)
        ||| overlaps(self.resource_writes, other.resource_reads)
        ||| overlaps(other.resource_writes, self.resource_reads)
    }
}

/// A system's registration: its name, the state gate it runs under, its
/// labels, the labels it runs before and after, and the component kinds and
/// resources it reads and writes.
pub struct SystemSpec {
    pub(crate) name: String,
    pub(crate) gates: Vec<Gate>,
    pub(crate) labels: Vec<usize>,
    pub(crate) before: Vec<usize>,
    pub(crate) after: Vec<usize>,
    pub(crate) reads: Vec<usize>,
    pub(crate) writes: Vec<usize>,
    pub(crate) resource_reads: Vec<usize>,
    pub(crate) resource_writes: Vec<usize>,
}

impl View for SystemSpec {
    type V = SystemModel;

    open(crate) spec fn view(&self) -> SystemModel {
        SystemModel {
            name: self.name@,
            gates: self.gates@,
            labels: self.labels@,
            before: self.before@,
            after: self.after@,
            reads: self.reads@,
            writes: self.writes@,
            resource_reads: self.resource_reads@,
            resource_writes: self.resource_writes@,
        }
    }
}

impl SystemSpec {
    /// Whether the system declares two different state gates.
    pub fn has_gate_conflict(&self) -> (r: bool)
        ensures
            r == self@.gate_conflict(),
    {
        let mut i: usize = 1;
        while i < self.gates.len()
            invariant
                1 <= i,
                forall|a: int|
                    0 <= a < i && a < self.gates@.len() ==> (#[trigger] self.gates@[a])
                        == self.gates@[0],
            decreases self.gates.len() - i,
        {
            if self.gates[i] != self.gates[0] {
                assert(self@.gates[i as int] != self@.gates[0]);
                return true;
            }
            i += 1;
        }
        false
    }

    /// Whether the system runs in the pass of `gate`.
    pub fn runs_in(&self, gate: Gate) -> (r: bool)
        ensures
            r == self@.runs_in(gate),
    {
        if self.gates.len() == 0 {
            return match gate {
                Gate::OnUpdate(_) => true,
                _ => false,
            };
        }
        let mut i: usize = 0;
        while i < self.gates.len()
            invariant
                i <= self.gates.len(),
                forall|a: int| 0 <= a < i ==> self.gates@[a] != gate,
            decreases self.gates.len() - i,
        {
            if self.gates[i] == gate {
                return true;
            }
            i += 1;
        }
        false
    }

    /// Whether this system has to run before `other`.
    pub fn precedes(&self, other: &SystemSpec) -> (r: bool)
        ensures
            r == self@.precedes(other@),
    {
        overlap(&self.before, &other.labels) || overlap(&other.after, &self.labels)
    }

    /// Whether the two systems may not run at the same time.
    pub fn conflicts_with(&self, other: &SystemSpec) -> (r: bool)
        ensures
            r == self@.conflicts_with(other@),
    {
        overlap(&self.writes, &other.writes) || overlap(&self.writes, &other.reads) || overlap(
            &other.writes,
            &self.reads,
        ) || overlap(&self.resource_writes, &other.resource_writes) || overlap(
            &self.resource_writes,
            &other.resource_reads,
        ) || overlap(&other.resource_writes, &self.resource_reads)
    }
}

/// The models of the systems in `systems`, in order.
pub open spec fn models(systems: Seq<SystemSpec>) -> Seq<SystemModel> {
    Seq::new(systems.len(), |j: int| systems[j]@)
}

/// The precedence graph of one pass: its nodes are the systems that run in
/// the pass of `gate`, its edges their ordering constraints.
pub open spec fn pass_graph(systems: Seq<SystemModel>, gate: Gate) -> Graph {
    Graph {
        n: systems.len(),
        member: |j: int| 0 <= j < systems.len() && systems[j].runs_in(gate),
        before: |i: int, j: int|
            0 <= i < systems.len() && 0 <= j < systems.len() && systems[i].precedes(systems[j]),
    }
}

/// Whether no schedule exists: a system declares two different gates, or the
/// ordering constraints of some pass admit no order.
pub open spec fn unschedulable(systems: Seq<SystemModel>) -> bool {
    ||| exists|j: int| 0 <= j < systems.len() && (#[trigger] systems[j]).gate_conflict()
    ||| exists|gate: Gate| !(#[trigger] pass_graph(systems, gate)).orderable()
}

/// Whether two systems of one wave of the pass of `gate` declare
/// overlapping mutable access.
pub open spec fn wave_conflict(systems: Seq<SystemModel>, gate: Gate) -> bool {
    exists|k: nat, i: int, j: int|
        i != j && (#[trigger] pass_graph(systems, gate).layer(k).contains(i)) && (
        #[trigger] pass_graph(systems, gate).layer(k).contains(j)) && systems[i].conflicts_with(
            systems[j],
        )
}

/// Whether some pass has a wave with two systems that declare overlapping
/// mutable access.
pub open spec fn conflicted(systems: Seq<SystemModel>) -> bool {
    exists|gate: Gate| #[trigger] wave_conflict(systems, gate)
}

/// Collects the systems of an application before it starts.
pub struct Scheduler {
    pub(crate) systems: Vec<SystemSpec>,
}

/// The validated table of an application: for every gate the waves in which
/// its systems run. Built once, before the first tick.
pub struct Schedule {
    pub(crate) systems: Vec<SystemSpec>,
    pub(crate) table: Vec<Vec<Vec<usize>>>,
}

impl Schedule {
    /// The registered systems, by identifier.
    pub open(crate) spec fn systems(&self) -> Seq<SystemModel> {
        models(self.systems@)
    }

    /// The waves of the pass of `gate`.
    pub open(crate) spec fn waves_of(&self, gate: Gate) -> Seq<Seq<int>> {
        waves_view(self.table@[gate.ordinal() as int]@)
    }

    /// The order in which the systems of the pass of `gate` run.
    pub open spec fn order_of(&self, gate: Gate) -> Seq<int> {
        concat(self.waves_of(gate))
    }

    /// The table's invariant: for every gate the waves are those of the
    /// gate's precedence graph, hold every system that runs under it, and no
    /// wave holds two systems with overlapping mutable access.
    pub open(crate) spec fn wf(&self) -> bool {
        &&& self.table@.len() == GATE_COUNT
        &&& forall|gate: Gate| #[trigger]
            pass_graph(self.systems(), gate).layered_by(self.waves_of(gate))
        &&& !unschedulable(self.systems())
        &&& !conflicted(self.systems())
    }
}

/// The matrix of the systems' ordering constraints: entry `[i][j]` says
/// whether system `i` has to run before system `j`.
fn relation(systems: &Vec<SystemSpec>) -> (rel: Vec<Vec<bool>>)
    ensures
        square(rel@, systems@.len() as nat),
        forall|i: int, j: int|
            0 <= i < systems@.len() && 0 <= j < systems@.len() ==> rel@[i]@[j]
                == systems@[i]@.precedes(systems@[j]@),
{
    let n: usize = systems.len();
    let mut rel: Vec<Vec<bool>> = Vec::new();
    let mut i: usize = 0;
    while i < n
        invariant
            i <= n,
            n == systems@.len(),
            rel@.len() == i,
            forall|a: int| 0 <= a < i ==> (#[trigger] rel@[a])@.len() == n,
            forall|a: int, b: int|
                0 <= a < i && 0 <= b < n ==> rel@[a]@[b] == systems@[a]@.precedes(systems@[b]@),
        decreases n - i,
    {
        let mut row: Vec<bool> = Vec::new();
        let mut j: usize = 0;
        while j < n
            invariant
                j <= n,
                i < n,
                n == systems@.len(),
                row@.len() == j,
                forall|b: int| 0 <= b < j ==> row@[b] == systems@[i as int]@.precedes(systems@[b]@),
            decreases n - j,
        {
            row.push(systems[i].precedes(&systems[j]));
            j += 1;
        }
        rel.push(row);
        i += 1;
    }
    rel
}

/// For each system, whether it runs in the pass of `gate`.
fn members_of(systems: &Vec<SystemSpec>, gate: Gate) -> (members: Vec<bool>)
    ensures
        members@.len() == systems@.len(),
        forall|j: int| 0 <= j < systems@.len() ==> members@[j] == systems@[j]@.runs_in(gate),
{
    let mut members: Vec<bool> = Vec::new();
    let mut j: usize = 0;
    while j < systems.len()
        invariant
            j <= systems@.len(),
            members@.len() == j,
            forall|b: int| 0 <= b < j ==> members@[b] == systems@[b]@.runs_in(gate),
        decreases systems@.len() - j,
    {
        members.push(systems[j].runs_in(gate));
        j += 1;
    }
    members
}

/// Whether no wave holds two systems that conflict.
fn conflict_free(systems: &Vec<SystemSpec>, waves: &Vec<Vec<usize>>) -> (r: bool)
    requires
        forall|k: int, a: int|
            0 <= k < waves@.len() && 0 <= a < waves@[k]@.len() ==> waves@[k]@[a] < systems@.len(),
    ensures
        r == forall|k: int, a: int, b: int|
            #![trigger waves@[k]@[a], waves@[k]@[b]]
            0 <= k < waves@.len() && 0 <= a < b < waves@[k]@.len() ==> !systems@[waves@[k]@[a] as int]@.conflicts_with(
            systems@[waves@[k]@[b] as int]@,
        ),
{
    let mut k: usize = 0;
    while k < waves.len()
        invariant
            k <= waves@.len(),
            forall|k: int, a: int|
                0 <= k < waves@.len() && 0 <= a < waves@[k]@.len() ==> waves@[k]@[a]
                    < systems@.len(),
            forall|c: int, a: int, b: int|
                #![trigger waves@[c]@[a], waves@[c]@[b]]
                0 <= c < k && 0 <= a < b < waves@[c]@.len() ==> !systems@[waves@[c]@[a] as int]@.conflicts_with(
                systems@[waves@[c]@[b] as int]@,
            ),
        decreases waves@.len() - k,
    {
        let wave = &waves[k];
        let mut b: usize = 0;
        while b < wave.len()
            invariant
                b <= wave@.len(),
                k < waves@.len(),
                wave@ == waves@[k as int]@,
                forall|a: int| 0 <= a < wave@.len() ==> wave@[a] < systems@.len(),
                forall|a: int, c: int|
                    #![trigger wave@[a], wave@[c]]
                    0 <= a < c < b ==> !systems@[wave@[a] as int]@.conflicts_with(
                        systems@[wave@[c] as int]@,
                    ),
            decreases wave@.len() - b,
        {
            let mut a: usize = 0;
            while a < b
                invariant
                    a <= b < wave@.len(),
                    k < waves@.len(),
                    wave@ == waves@[k as int]@,
                    forall|x: int| 0 <= x < wave@.len() ==> wave@[x] < systems@.len(),
                    forall|x: int|
                        0 <= x < a ==> !systems@[(#[trigger] wave@[x]) as int]@.conflicts_with(
                            systems@[wave@[b as int] as int]@,
                        ),
                decreases b - a,
            {
                if systems[wave[a]].conflicts_with(&systems[wave[b]]) {
                    assert(systems@[waves@[k as int]@[a as int] as int]@.conflicts_with(
                        systems@[waves@[k as int]@[b as int] as int]@,
                    ));
                    return false;
                }
                a += 1;
            }
            b += 1;
        }
        k += 1;
    }
    true
}

/// Whether two systems conflict does not depend on which is asked first.
pub proof fn lemma_conflict_symmetric(a: SystemModel, b: SystemModel)
    ensures
        a.conflicts_with(b) == b.conflicts_with(a),
{
    lemma_overlaps_symmetric(a.writes, b.writes);
    lemma_overlaps_symmetric(a.resource_writes, b.resource_writes);
}

/// Whether two sequences overlap does not depend on their order.
pub proof fn lemma_overlaps_symmetric(a: Seq<usize>, b: Seq<usize>)
    ensures
        overlaps(a, b) == overlaps(b, a),
{
    if overlaps(a, b) {
        let x = choose|x: usize| a.contains(x) && b.contains(x);
        assert(b.contains(x) && a.contains(x));
    }
    if overlaps(b, a) {
        let x = choose|x: usize| b.contains(x) && a.contains(x);
        assert(a.contains(x) && b.contains(x));
    }
}

impl Scheduler {
    /// The registered systems, by identifier.
    pub open(crate) spec fn systems(&self) -> Seq<SystemModel> {
        models(self.systems@)
    }

    /// A scheduler without systems.
    pub fn new() -> (s: Scheduler)
        ensures
            s.systems() == Seq::<SystemModel>::empty(),
    {
        let s = Scheduler { systems: Vec::new() };
        assert(s.systems() =~= Seq::<SystemModel>::empty());
        s
    }

    /// Adds a system and returns its identifier: the number of systems
    /// registered before it. Registration only records. The registrations
    /// are validated together by `build`, before the first tick, because
    /// which systems share a wave depends on systems registered later.
    pub fn register(&mut self, system: SystemSpec) -> (id: usize)
        ensures
            id == old(self).systems().len(),
            final(self).systems() == old(self).systems().push(system@),
    {
        let id: usize = self.systems.len();
        self.systems.push(system);
        assert(self.systems() =~= old(self).systems().push(system@));
        id
    }

    /// The number of systems registered.
    pub fn len(&self) -> (n: usize)
        ensures
            n == self.systems().len(),
    {
        self.systems.len()
    }

    /// Validates the registrations and builds the table of waves, once,
    /// before the first tick. Fails with `SchedulingError` exactly when a
    /// system declares two different gates or the ordering constraints of
    /// some pass admit no order, which is when they form a cycle; otherwise
    /// with `QueryConflict` exactly when two systems of one wave declare
    /// overlapping mutable access.
    pub fn build(self) -> (r: Result<Schedule, EcsError>)
        ensures
            match r {
                Ok(s) => s.wf() && s.systems() == self.systems(),
                Err(e) => if unschedulable(self.systems()) {
                    e == EcsError::SchedulingError
                } else {
                    e == EcsError::QueryConflict && conflicted(self.systems())
                },
            },
    {
        let ghost sys = self.systems();
        let n: usize = self.systems.len();
        let mut j: usize = 0;
        while j < n
            invariant
                j <= n,
                n == self.systems@.len(),
                sys == models(self.systems@),
                forall|x: int| 0 <= x < j ==> !(#[trigger] sys[x]).gate_conflict(),
            decreases n - j,
        {
            if self.systems[j].has_gate_conflict() {
                assert(sys[j as int].gate_conflict());
                return Err(EcsError::SchedulingError);
            }
            j += 1;
        }
        let rel = relation(&self.systems);
        let mut table: Vec<Vec<Vec<usize>>> = Vec::new();
        let mut gi: usize = 0;
        while gi < GATE_COUNT
            invariant
                gi <= GATE_COUNT,
                n == self.systems@.len(),
                sys == models(self.systems@),
                table@.len() == gi,
                square(rel@, n as nat),
                forall|a: int, b: int|
                    0 <= a < n && 0 <= b < n ==> rel@[a]@[b] == self.systems@[a]@.precedes(
                        self.systems@[b]@,
                    ),
                forall|gate: Gate|
                    gate.ordinal() < gi ==> (#[trigger] pass_graph(sys, gate)).layered_by(
                        waves_view(table@[gate.ordinal() as int]@),
                    ),
            decreases GATE_COUNT - gi,
        {
            let gate = match Gate::from_index(gi) {
                Some(gate) => gate,
                None => {
                    return Err(EcsError::SchedulingError);
                },
            };
            let members = members_of(&self.systems, gate);
            assert(graph_of(rel@, members@) =~= pass_graph(sys, gate));
            match layers(&rel, &members) {
                None => {
                    assert(!pass_graph(sys, gate).orderable());
                    return Err(EcsError::SchedulingError);
                },
                Some(waves) => {
                    let ghost before = table@;
                    table.push(waves);
                    assert forall|other: Gate| other.ordinal() < gi + 1 implies (
                    #[trigger] pass_graph(sys, other)).layered_by(
                        waves_view(table@[other.ordinal() as int]@),
                    ) by {
                        if other.ordinal() == gi {
                            crate::state::lemma_gate_ordinal_injective(other, gate);
                        } else {
                            assert(table@[other.ordinal() as int] == before[other.ordinal() as int]);
                        }
                    }
                },
            }
            gi += 1;
        }
        assert(!unschedulable(sys)) by {
            assert forall|gate: Gate| (#[trigger] pass_graph(sys, gate)).orderable() by {
                pass_graph(sys, gate).lemma_layered_orderable(
                    waves_view(table@[gate.ordinal() as int]@),
                );
            }
        }
        let mut gi: usize = 0;
        while gi < GATE_COUNT
            invariant
                gi <= GATE_COUNT,
                n == self.systems@.len(),
                sys == models(self.systems@),
                table@.len() == GATE_COUNT,
                !unschedulable(sys),
                forall|gate: Gate| (#[trigger] pass_graph(sys, gate)).layered_by(
                        waves_view(table@[gate.ordinal() as int]@),
                    ),
                forall|gate: Gate| gate.ordinal() < gi ==> !#[trigger] wave_conflict(sys, gate),
            decreases GATE_COUNT - gi,
        {
            let gate = match Gate::from_index(gi) {
                Some(gate) => gate,
                None => {
                    return Err(EcsError::SchedulingError);
                },
            };
            let ghost g = pass_graph(sys, gate);
            let waves = &table[gi];
            let ghost view = waves_view(waves@);
            assert(g.layered_by(view));
            assert forall|k: int, a: int|
                0 <= k < waves@.len() && 0 <= a < waves@[k]@.len() implies waves@[k]@[a] < n by {
                assert(view[k][a] == waves@[k]@[a]);
                assert(view[k].contains(view[k][a]));
                assert(g.layer(k as nat).contains(view[k][a]));
            }
            if !conflict_free(&self.systems, waves) {
                proof {
                    let (k, a, b) = choose|k: int, a: int, b: int|
                        #![trigger waves@[k]@[a], waves@[k]@[b]]
                        0 <= k < waves@.len() && 0 <= a < b < waves@[k]@.len()
                            && self.systems@[waves@[k]@[a] as int]@.conflicts_with(
                            self.systems@[waves@[k]@[b] as int]@,
                        );
                    let i = view[k][a];
                    let j = view[k][b];
                    assert(view[k].contains(i));
                    assert(view[k].contains(j));
                    assert(g.layer(k as nat).contains(i));
                    assert(g.layer(k as nat).contains(j));
                    assert(i < j);
                    assert(sys[i].conflicts_with(sys[j]));
                    assert(wave_conflict(sys, gate));
                }
                return Err(EcsError::QueryConflict);
            }
            proof {
                if wave_conflict(sys, gate) {
                    let (k, i, j) = choose|k: nat, i: int, j: int|
                        i != j && (#[trigger] g.layer(k).contains(i)) && (#[trigger] g.layer(
                            k,
                        ).contains(j)) && sys[i].conflicts_with(sys[j]);
                    if k >= view.len() {
                        g.lemma_no_wave_after(view, k, i);
                    } else {
                        assert(view[k as int].contains(i));
                        assert(view[k as int].contains(j));
                        let a = choose|a: int| 0 <= a < view[k as int].len() && view[k as int][a] == i;
                        let b = choose|b: int| 0 <= b < view[k as int].len() && view[k as int][b] == j;
                        lemma_conflict_symmetric(sys[i], sys[j]);
                        if a < b {
                            assert(!self.systems@[waves@[k as int]@[a] as int]@.conflicts_with(
                                self.systems@[waves@[k as int]@[b] as int]@,
                            ));
                        } else {
                            assert(!self.systems@[waves@[k as int]@[b] as int]@.conflicts_with(
                                self.systems@[waves@[k as int]@[a] as int]@,
                            ));
                        }
                    }
                }
                assert forall|other: Gate| other.ordinal() < gi + 1 implies !#[trigger] wave_conflict(
                    sys,
                    other,
                ) by {
                    if other.ordinal() == gi {
                        crate::state::lemma_gate_ordinal_injective(other, gate);
                    }
                }
            }
            gi += 1;
        }
        let s = Schedule { systems: self.systems, table };
        assert(s.systems() == sys);
        Ok(s)
    }
}

impl Schedule {
    /// The systems that run, in order, over the passes of `gates`, one pass
    /// after the other.
    pub open spec fn plan_of(&self, gates: Seq<Gate>) -> Seq<int>
        decreases gates.len(),
    {
        if gates.len() == 0 {
            Seq::empty()
        } else {
            self.plan_of(gates.drop_last()) + self.order_of(gates.last())
        }
    }

    /// The number of systems.
    pub fn len(&self) -> (n: usize)
        ensures
            n == self.systems().len(),
    {
        self.systems.len()
    }

    /// The name of system `id`, for diagnostics; `None` when there is no
    /// such system.
    pub fn name(&self, id: usize) -> (r: Option<&String>)
        ensures
            match r {
                Some(name) => id < self.systems().len() && name@ == self.systems()[id as int].name,
                None => id >= self.systems().len(),
            },
    {
        if id < self.systems.len() {
            Some(&self.systems[id].name)
        } else {
            None
        }
    }

    /// The waves of the pass of `gate`. The systems of one wave declare no
    /// overlapping mutable access and may run at the same time; the waves
    /// run one after the other.
    pub fn waves(&self, gate: Gate) -> (w: &Vec<Vec<usize>>)
        requires
            self.wf(),
        ensures
            waves_view(w@) == self.waves_of(gate),
    {
        &self.table[gate.index()]
    }

    /// The systems of the pass of `gate` in the order in which they run
    /// one by one: each system that runs in that pass once, and none ahead
    /// of a system that has to come before it.
    pub fn order(&self, gate: Gate) -> (o: Vec<usize>)
        requires
            self.wf(),
        ensures
            o@.map_values(|x: usize| x as int) == self.order_of(gate),
    {
        flatten(&self.table[gate.index()])
    }

    /// Starts a tick: advances the state machine and returns the systems to
    /// run in this tick, in order. On a transition these are the exit systems
    /// of the state that is left, the enter systems of the new state, then
    /// its update systems; on the first tick the enter systems of the initial
    /// state and its update systems; otherwise the update systems of the
    /// current state alone.
    pub fn tick_plan(&self, machine: &mut StateMachine) -> (plan: Vec<usize>)
        requires
            self.wf(),
        ensures
            final(machine)@ == old(machine)@.advanced(),
            plan@.map_values(|x: usize| x as int) == self.plan_of(
                old(machine)@.hooks().push(Gate::OnUpdate(old(machine)@.advanced().current)),
            ),
    {
        let mut gates = machine.advance();
        gates.push(machine.update_gate());
        let mut plan: Vec<usize> = Vec::new();
        let mut k: usize = 0;
        assert(gates@.take(0) =~= Seq::<Gate>::empty());
        while k < gates.len()
            invariant
                k <= gates@.len(),
                self.wf(),
                plan@.map_values(|x: usize| x as int) == self.plan_of(gates@.take(k as int)),
            decreases gates@.len() - k,
        {
            let mut part = self.order(gates[k]);
            let ghost before = plan@;
            let ghost added = part@;
            plan.append(&mut part);
            proof {
                let upto = gates@.take(k + 1);
                assert(upto.drop_last() =~= gates@.take(k as int));
                assert(upto.last() == gates@[k as int]);
                assert(plan@.map_values(|x: usize| x as int) =~= before.map_values(
                    |x: usize| x as int,
                ) + added.map_values(|x: usize| x as int));
            }
            k += 1;
        }
        assert(gates@.take(k as int) =~= gates@);
        plan
    }
}

/// In every pass the order of a valid schedule lists each system that runs
/// in the pass exactly once, and no system ahead of one that has to come
/// before it.
pub proof fn lemma_order_valid(s: &Schedule, gate: Gate)
    requires
        s.wf(),
    ensures
        pass_graph(s.systems(), gate).valid_order(s.order_of(gate)),
{
    pass_graph(s.systems(), gate).lemma_layered_orderable(s.waves_of(gate));
}

/// Ordering constraints are respected. Whenever systems `i` and `j` run in
/// the same pass and `i` has to come before `j`, by a `before` of `i` or an
/// `after` of `j`, then `i` runs at an earlier position of the pass than `j`.
pub proof fn lemma_constraints_respected(s: &Schedule, gate: Gate, i: int, j: int) -> (ab: (
    int,
    int,
))
    requires
        s.wf(),
        0 <= i < s.systems().len(),
        0 <= j < s.systems().len(),
        s.systems()[i].runs_in(gate),
        s.systems()[j].runs_in(gate),
        s.systems()[i].precedes(s.systems()[j]),
    ensures
        0 <= ab.0 < ab.1 < s.order_of(gate).len(),
        s.order_of(gate)[ab.0] == i,
        s.order_of(gate)[ab.1] == j,
{
    pass_graph(s.systems(), gate).lemma_order_respects_edges(s.waves_of(gate), i, j)
}

impl SystemSpec {
    /// A system named `name` that declares nothing yet: it runs on every
    /// tick, in no particular order, and touches nothing.
    pub fn new(name: &str) -> (s: SystemSpec)
        ensures
            s@ == SystemModel::named(name@),
    {
        SystemSpec {
            name: name.to_owned(),
            gates: Vec::new(),
            labels: Vec::new(),
            before: Vec::new(),
            after: Vec::new(),
            reads: Vec::new(),
            writes: Vec::new(),
            resource_reads: Vec::new(),
            resource_writes: Vec::new(),
        }
    }

    /// The system's name.
    pub fn name(&self) -> (n: &String)
        ensures
            n@ == self@.name,
    {
        &self.name
    }

    /// Declares a gate under which the system runs.
    pub fn gate(self, gate: Gate) -> (s: SystemSpec)
        ensures
            s@ == self@.gate(gate),
    {
        let mut s = self;
        s.gates.push(gate);
        s
    }

    /// Gives the system the label `label`.
    pub fn label(self, label: usize) -> (s: SystemSpec)
        ensures
            s@ == self@.label(label),
    {
        let mut s = self;
        s.labels.push(label);
        s
    }

    /// Asks for the system to run before every system labelled `label`.
    pub fn before(self, label: usize) -> (s: SystemSpec)
        ensures
            s@ == self@.before(label),
    {
        let mut s = self;
        s.before.push(label);
        s
    }

    /// Asks for the system to run after every system labelled `label`.
    pub fn after(self, label: usize) -> (s: SystemSpec)
        ensures
            s@ == self@.after(label),
    {
        let mut s = self;
        s.after.push(label);
        s
    }

    /// Declares that the system reads components of kind `kind`.
    pub fn reads(self, kind: usize) -> (s: SystemSpec)
        ensures
            s@ == self@.reads(kind),
    {
        let mut s = self;
        s.reads.push(kind);
        s
    }

    /// Declares that the system writes components of kind `kind`.
    pub fn writes(self, kind: usize) -> (s: SystemSpec)
        ensures
            s@ == self@.writes(kind),
    {
        let mut s = self;
        s.writes.push(kind);
        s
    }

    /// Declares that the system reads the resource `key`.
    pub fn reads_resource(self, key: usize) -> (s: SystemSpec)
        ensures
            s@ == self@.reads_resource(key),
    {
        let mut s = self;
        s.resource_reads.push(key);
        s
    }

    /// Declares that the system writes the resource `key`.
    pub fn writes_resource(self, key: usize) -> (s: SystemSpec)
        ensures
            s@ == self@.writes_resource(key),
    {
        let mut s = self;
        s.resource_writes.push(key);
        s
    }
}

} // verus!
