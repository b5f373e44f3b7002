use vstd::prelude::*;

verus! {

/// A precedence graph: nodes are the numbers below `n` for which `member`
/// holds, and `before(i, j)` asks for node `i` to come before node `j`.
#[verifier::ext_equal]
pub struct Graph {
    pub n: nat,
    pub member: spec_fn(int) -> bool,
    pub before: spec_fn(int, int) -> bool,
}

/// The set of indices at which `flags` holds `true`.
pub open spec fn marked(flags: Seq<bool>) -> Set<int> {
    Set::new(|j: int| 0 <= j < flags.len() && flags[j])
}

/// The graph that a square matrix of flags and a row of membership flags
/// stand for.
pub open spec fn graph_of(rel: Seq<Vec<bool>>, members: Seq<bool>) -> Graph {
    Graph {
        n: members.len(),
        member: |j: int| 0 <= j < members.len() && members[j],
        before: |i: int, j: int|
            0 <= i < rel.len() && 0 <= j < rel[i]@.len() && rel[i]@[j],
    }
}

/// The waves of a schedule as sequences of integers.
pub open spec fn waves_view(waves: Seq<Vec<usize>>) -> Seq<Seq<int>> {
    Seq::new(waves.len(), |k: int| Seq::new(waves[k]@.len(), |q: int| waves[k]@[q] as int))
}

/// Whether `s` is strictly ascending.
pub open spec fn ascending(s: Seq<int>) -> bool {
    forall|a: int, b: int| 0 <= a < b < s.len() ==> s[a] < s[b]
}

impl Graph {
    /// Whether `j` is a node.
    pub open spec fn node(self, j: int) -> bool {
        0 <= j < self.n && (self.member)(j)
    }

    /// Whether node `i` has to come before node `j`.
    pub open spec fn edge(self, i: int, j: int) -> bool {
        self.node(i) && self.node(j) && (self.before)(i, j)
    }

    /// Whether node `j` can run next once the nodes in `done` have run: it
    /// has not run, and every node that has to come before it has.
    pub open spec fn ready(self, done: Set<int>, j: int) -> bool {
        &&& self.node(j)
        &&& !done.contains(j)
        &&& forall|i: int| #[trigger] self.edge(i, j) ==> done.contains(i)
    }

    /// The nodes that have run before wave `k`, when every wave holds all the
    /// nodes that are ready as it starts.
    pub open spec fn placed(self, k: nat) -> Set<int>
        decreases k,
    {
        if k == 0 {
            Set::empty()
        } else {
            let done = self.placed((k - 1) as nat);
            done.union(Set::new(|j: int| self.ready(done, j)))
        }
    }

    /// The nodes of wave `k`.
    pub open spec fn layer(self, k: nat) -> Set<int> {
        Set::new(|j: int| self.ready(self.placed(k), j))
    }

    /// Whether `order` lists every node once and no node ahead of one that
    /// has to come before it.
    pub open spec fn valid_order(self, order: Seq<int>) -> bool {
        &&& forall|a: int| 0 <= a < order.len() ==> self.node(#[trigger] order[a])
        &&& forall|a: int, b: int| 0 <= a < b < order.len() ==> order[a] != order[b]
        &&& forall|j: int| self.node(j) ==> order.contains(j)
        &&& forall|a: int, b: int|
            0 <= a <= b < order.len() ==> !self.edge(#[trigger] order[b], #[trigger] order[a])
    }

    /// Whether the nodes can be put in an order that honours every edge.
    pub open spec fn orderable(self) -> bool {
        exists|order: Seq<int>| self.valid_order(order)
    }

    /// Whether `waves` are the graph's waves and hold every node: wave `k`
    /// lists, ascending, exactly the nodes that are ready once the waves
    /// before it have run, and is not empty.
    pub open spec fn layered_by(self, waves: Seq<Seq<int>>) -> bool {
        &&& forall|k: int|
            0 <= k < waves.len() ==> {
                &&& (#[trigger] waves[k]).len() > 0
                &&& ascending(waves[k])
                &&& forall|j: int| waves[k].contains(j) <==> self.layer(k as nat).contains(j)
            }
        &&& forall|j: int| self.node(j) ==> self.placed(waves.len()).contains(j)
    }
}

/// The least position of `order`, below `upto`, whose node lies outside `done`.
proof fn lemma_first_outside(order: Seq<int>, done: Set<int>, upto: int) -> (a: int)
    requires
        0 <= upto < order.len(),
        !done.contains(order[upto]),
    ensures
        0 <= a <= upto,
        !done.contains(order[a]),
        forall|b: int| 0 <= b < a ==> done.contains(order[b]),
    decreases upto,
{
    if exists|b: int| 0 <= b < upto && !done.contains(order[b]) {
        let b = choose|b: int| 0 <= b < upto && !done.contains(order[b]);
        lemma_first_outside(order, done, b)
    } else {
        upto
    }
}

/// If some node has not run before wave `k` and wave `k` is empty, no order
/// of the nodes honours every edge.
pub proof fn lemma_stuck(g: Graph, k: nat, j: int)
    requires
        forall|x: int| !g.ready(g.placed(k), x),
        g.node(j),
        !g.placed(k).contains(j),
    ensures
        !g.orderable(),
{
    let done = g.placed(k);
    assert forall|order: Seq<int>| !g.valid_order(order) by {
        if g.valid_order(order) {
            assert(order.contains(j));
            let pj = choose|p: int| 0 <= p < order.len() && order[p] == j;
            let a = lemma_first_outside(order, done, pj);
            let x = order[a];
            assert(g.node(x));
            assert(!g.ready(done, x));
            let i = choose|i: int| g.edge(i, x) && !done.contains(i);
            assert(order.contains(i));
            let b = choose|b: int| 0 <= b < order.len() && order[b] == i;
            if a <= b {
                assert(!g.edge(order[b], order[a]));
            }
        }
    }
}

/// How many entries of `flags` are `true`.
pub open spec fn count_true(flags: Seq<bool>) -> nat
    decreases flags.len(),
{
    if flags.len() == 0 {
        0
    } else {
        let here: nat = if flags.last() {
            1
        } else {
            0
        };
        count_true(flags.drop_last()) + here
    }
}

/// Where every entry is `false` the count is zero.
proof fn lemma_count_zero(flags: Seq<bool>)
    requires
        forall|j: int| 0 <= j < flags.len() ==> !flags[j],
    ensures
        count_true(flags) == 0,
    decreases flags.len(),
{
    if flags.len() > 0 {
        lemma_count_zero(flags.drop_last());
    }
}

/// No more entries are `true` than there are entries.
proof fn lemma_count_bound(flags: Seq<bool>)
    ensures
        count_true(flags) <= flags.len(),
    decreases flags.len(),
{
    if flags.len() > 0 {
        lemma_count_bound(flags.drop_last());
    }
}

/// Turning a `false` entry into `true` raises the count by one.
proof fn lemma_count_update(flags: Seq<bool>, x: int)
    requires
        0 <= x < flags.len(),
        !flags[x],
    ensures
        count_true(flags.update(x, true)) == count_true(flags) + 1,
    decreases flags.len(),
{
    let after = flags.update(x, true);
    if x == flags.len() - 1 {
        assert(after.drop_last() =~= flags.drop_last());
    } else {
        assert(after.drop_last() =~= flags.drop_last().update(x, true));
        lemma_count_update(flags.drop_last(), x);
    }
}

/// Whether `rel` has a row of `n` flags for each of `n` nodes.
pub open spec fn square(rel: Seq<Vec<bool>>, n: nat) -> bool {
    rel.len() == n && forall|i: int| 0 <= i < n ==> (#[trigger] rel[i])@.len() == n
}

/// Whether node `j` is ready once the nodes flagged in `placed` have run.
fn is_ready(rel: &Vec<Vec<bool>>, members: &Vec<bool>, placed: &Vec<bool>, j: usize) -> (b: bool)
    requires
        square(rel@, members@.len() as nat),
        placed@.len() == members@.len(),
        j < members@.len(),
    ensures
        b == graph_of(rel@, members@).ready(marked(placed@), j as int),
{
    let ghost g = graph_of(rel@, members@);
    if !members[j] || placed[j] {
        return false;
    }
    let n: usize = members.len();
    let mut i: usize = 0;
    while i < n
        invariant
            i <= n,
            n == members@.len(),
            square(rel@, n as nat),
            placed@.len() == n,
            j < n,
            members@[j as int],
            !placed@[j as int],
            g == graph_of(rel@, members@),
            forall|x: int| 0 <= x < i && g.edge(x, j as int) ==> marked(placed@).contains(x),
        decreases n - i,
    {
        if members[i] && rel[i][j] && !placed[i] {
            assert(g.edge(i as int, j as int));
            return false;
        }
        i += 1;
    }
    true
}

/// Splits the nodes of a precedence graph into waves. Wave 0 holds the nodes
/// that nothing has to come before; each later wave holds the nodes that
/// become ready once the waves before it have run. `None` exactly when the
/// nodes cannot be ordered at all, which is when the edges form a cycle.
pub fn layers(rel: &Vec<Vec<bool>>, members: &Vec<bool>) -> (r: Option<Vec<Vec<usize>>>)
    requires
        square(rel@, members@.len() as nat),
    ensures
        match r {
            Some(waves) => graph_of(rel@, members@).layered_by(waves_view(waves@)),
            None => !graph_of(rel@, members@).orderable(),
        },
{
    let ghost g = graph_of(rel@, members@);
    let n: usize = members.len();
    let mut placed: Vec<bool> = Vec::new();
    while placed.len() < n
        invariant
            placed@.len() <= n,
            forall|j: int| 0 <= j < placed@.len() ==> !placed@[j],
        decreases n - placed.len(),
    {
        placed.push(false);
    }
    assert(count_true(placed@) == 0) by {
        lemma_count_zero(placed@);
    }
    let mut count: usize = 0;
    let mut waves: Vec<Vec<usize>> = Vec::new();
    assert(marked(placed@) =~= g.placed(0));
    loop
        invariant
            n == members@.len(),
            square(rel@, n as nat),
            g == graph_of(rel@, members@),
            placed@.len() == n,
            count == count_true(placed@),
            marked(placed@) == g.placed(waves@.len()),
            forall|k: int|
                0 <= k < waves@.len() ==> {
                    &&& (#[trigger] waves_view(waves@)[k]).len() > 0
                    &&& ascending(waves_view(waves@)[k])
                    &&& forall|j: int|
                        waves_view(waves@)[k].contains(j) <==> g.layer(k as nat).contains(j)
                },
        ensures
            n == members@.len(),
            placed@.len() == n,
            g == graph_of(rel@, members@),
            marked(placed@) == g.placed(waves@.len()),
            forall|x: int| !g.ready(g.placed(waves@.len()), x),
            forall|k: int|
                0 <= k < waves@.len() ==> {
                    &&& (#[trigger] waves_view(waves@)[k]).len() > 0
                    &&& ascending(waves_view(waves@)[k])
                    &&& forall|j: int|
                        waves_view(waves@)[k].contains(j) <==> g.layer(k as nat).contains(j)
                },
        decreases n - count,
    {
        let ghost depth = waves@.len();
        let ghost done = g.placed(depth);
        let mut wave: Vec<usize> = Vec::new();
        let mut j: usize = 0;
        while j < n
            invariant
                j <= n,
                n == members@.len(),
                square(rel@, n as nat),
                placed@.len() == n,
                g == graph_of(rel@, members@),
                done == marked(placed@),
                forall|q: int| 0 <= q < wave@.len() ==> wave@[q] < j,
                forall|a: int, b: int| 0 <= a < b < wave@.len() ==> wave@[a] < wave@[b],
                forall|q: int| 0 <= q < wave@.len() ==> g.ready(done, #[trigger] wave@[q] as int),
                forall|x: int|
                    0 <= x < j && g.ready(done, x) ==> exists|q: int|
                        0 <= q < wave@.len() && wave@[q] == x,
            decreases n - j,
        {
            if is_ready(rel, members, &placed, j) {
                let ghost before = wave@;
                wave.push(j);
                assert forall|x: int| 0 <= x < j + 1 && g.ready(done, x) implies exists|q: int|
                    0 <= q < wave@.len() && wave@[q] == x by {
                    if x == j {
                        assert(wave@[wave@.len() - 1] == x);
                    } else {
                        let q = choose|q: int| 0 <= q < before.len() && before[q] == x;
                        assert(wave@[q] == x);
                    }
                }
            }
            j += 1;
        }
        if wave.len() == 0 {
            assert forall|x: int| !g.ready(g.placed(waves@.len()), x) by {
                if g.ready(done, x) {
                    let q = choose|q: int| 0 <= q < wave@.len() && wave@[q] == x;
                }
            }
            break;
        }
        let ghost start = placed@;
        let mut q: usize = 0;
        while q < wave.len()
            invariant
                q <= wave@.len(),
                placed@.len() == n,
                start.len() == n,
                forall|a: int, b: int| 0 <= a < b < wave@.len() ==> wave@[a] < wave@[b],
                forall|p: int| 0 <= p < wave@.len() ==> wave@[p] < n && !start[wave@[p] as int],
                forall|x: int|
                    0 <= x < n ==> (placed@[x] <==> (start[x] || exists|p: int|
                        0 <= p < q && wave@[p] == x)),
                count_true(placed@) == count_true(start) + q,
            decreases wave@.len() - q,
        {
            let x: usize = wave[q];
            let ghost prior = placed@;
            assert(!prior[x as int]) by {
                if prior[x as int] {
                    let p = choose|p: int| 0 <= p < q && wave@[p] == x;
                    assert(wave@[p] < wave@[q as int]);
                }
            }
            placed[x] = true;
            proof {
                lemma_count_update(prior, x as int);
                assert(placed@ =~= prior.update(x as int, true));
                assert forall|y: int| 0 <= y < n implies (placed@[y] <==> (start[y] || exists|
                    p: int,
                | 0 <= p < q + 1 && wave@[p] == y)) by {
                    if y == x {
                        assert(wave@[q as int] == y);
                    } else if placed@[y] {
                        assert(prior[y]);
                        if !start[y] {
                            let p = choose|p: int| 0 <= p < q && wave@[p] == y;
                            assert(0 <= p < q + 1 && wave@[p] == y);
                        }
                    } else {
                        assert(!prior[y]);
                    }
                }
            }
            q += 1;
        }
        proof {
            lemma_count_bound(placed@);
            let view = waves_view(waves@.push(wave));
            assert(view[depth as int] =~= Seq::new(wave@.len(), |p: int| wave@[p] as int));
            assert forall|y: int| view[depth as int].contains(y) <==> g.layer(depth).contains(
                y,
            ) by {
                if view[depth as int].contains(y) {
                    let p = choose|p: int|
                        0 <= p < view[depth as int].len() && view[depth as int][p] == y;
                    assert(g.ready(done, wave@[p] as int));
                }
                if g.layer(depth).contains(y) {
                    let p = choose|p: int| 0 <= p < wave@.len() && wave@[p] == y;
                    assert(view[depth as int][p] == y);
                }
            }
            assert forall|k: int| 0 <= k < depth implies view[k] == waves_view(waves@)[k] by {
                assert(view[k] =~= waves_view(waves@)[k]);
            }
            assert(marked(placed@) =~= g.placed(depth + 1)) by {
                assert forall|y: int| marked(placed@).contains(y) <==> g.placed(
                    depth + 1,
                ).contains(y) by {
                    if 0 <= y < n {
                        if exists|p: int| 0 <= p < wave@.len() && wave@[p] == y {
                            let p = choose|p: int| 0 <= p < wave@.len() && wave@[p] == y;
                            assert(g.ready(done, wave@[p] as int));
                        }
                    }
                }
            }
        }
        let added: usize = wave.len();
        waves.push(wave);
        count = count + added;
    }
    let mut j: usize = 0;
    while j < n
        invariant
            j <= n,
            n == members@.len(),
            placed@.len() == n,
            g == graph_of(rel@, members@),
            marked(placed@) == g.placed(waves@.len()),
            forall|x: int| !g.ready(g.placed(waves@.len()), x),
            forall|x: int| 0 <= x < j && g.node(x) ==> placed@[x],
        decreases n - j,
    {
        if members[j] && !placed[j] {
            proof {
                assert(!marked(placed@).contains(j as int));
                lemma_stuck(g, waves@.len(), j as int);
            }
            return None;
        }
        j += 1;
    }
    Some(waves)
}

/// The waves joined into one sequence, wave after wave.
pub open spec fn concat(waves: Seq<Seq<int>>) -> Seq<int>
    decreases waves.len(),
{
    if waves.len() == 0 {
        Seq::empty()
    } else {
        concat(waves.drop_last()) + waves.last()
    }
}

/// The position in `concat(waves)` at which wave `k` starts.
pub open spec fn offset(waves: Seq<Seq<int>>, k: int) -> int {
    concat(waves.take(k)).len() as int
}

/// The first `m` waves, joined, are the beginning of all waves, joined.
proof fn lemma_prefix(waves: Seq<Seq<int>>, m: int)
    requires
        0 <= m <= waves.len(),
    ensures
        concat(waves.take(m)).len() <= concat(waves).len(),
        forall|p: int|
            0 <= p < concat(waves.take(m)).len() ==> concat(waves.take(m))[p] == concat(waves)[p],
    decreases waves.len(),
{
    if m == waves.len() {
        assert(waves.take(m) =~= waves);
    } else {
        assert(waves.take(m) =~= waves.drop_last().take(m));
        lemma_prefix(waves.drop_last(), m);
    }
}

/// Wave `k` lies in `concat(waves)` from its offset on, and the next wave
/// starts where it ends.
proof fn lemma_concat_at(waves: Seq<Seq<int>>, k: int)
    requires
        0 <= k < waves.len(),
    ensures
        offset(waves, k + 1) == offset(waves, k) + waves[k].len(),
        offset(waves, k + 1) <= concat(waves).len(),
        forall|q: int|
            0 <= q < waves[k].len() ==> concat(waves)[offset(waves, k) + q] == waves[k][q],
{
    let upto = waves.take(k + 1);
    assert(upto.drop_last() =~= waves.take(k));
    assert(upto.last() == waves[k]);
    lemma_prefix(waves, k + 1);
    assert forall|q: int| 0 <= q < waves[k].len() implies concat(waves)[offset(waves, k) + q]
        == waves[k][q] by {
        assert(concat(upto)[offset(waves, k) + q] == waves[k][q]);
    }
}

/// An earlier wave ends before a later one starts.
proof fn lemma_offset_monotone(waves: Seq<Seq<int>>, k1: int, k2: int)
    requires
        0 <= k1 < k2 <= waves.len(),
    ensures
        offset(waves, k1) + waves[k1].len() <= offset(waves, k2),
    decreases k2 - k1,
{
    lemma_concat_at(waves, k1);
    if k1 + 1 < k2 {
        lemma_offset_monotone(waves, k1 + 1, k2);
    }
}

/// The wave and the place in it that position `p` of `concat(waves)` comes from.
proof fn lemma_locate(waves: Seq<Seq<int>>, p: int) -> (kq: (int, int))
    requires
        0 <= p < concat(waves).len(),
    ensures
        0 <= kq.0 < waves.len(),
        0 <= kq.1 < waves[kq.0].len(),
        p == offset(waves, kq.0) + kq.1,
        concat(waves)[p] == waves[kq.0][kq.1],
    decreases waves.len(),
{
    let front = waves.drop_last();
    if p < concat(front).len() {
        let kq = lemma_locate(front, p);
        assert(front.take(kq.0) =~= waves.take(kq.0));
        kq
    } else {
        let k = waves.len() - 1;
        assert(waves.take(k) =~= front);
        (k, p - concat(front).len())
    }
}

impl Graph {
    /// What has run before a wave has run before every later wave.
    pub proof fn lemma_placed_monotone(self, k1: nat, k2: nat)
        requires
            k1 <= k2,
        ensures
            self.placed(k1).subset_of(self.placed(k2)),
        decreases k2,
    {
        if k1 < k2 {
            self.lemma_placed_monotone(k1, (k2 - 1) as nat);
        }
    }

    /// A node that has run before wave `k` belongs to an earlier wave.
    pub proof fn lemma_placed_in_layer(self, k: nat, j: int) -> (at: nat)
        requires
            self.placed(k).contains(j),
        ensures
            at < k,
            self.layer(at).contains(j),
        decreases k,
    {
        if self.placed((k - 1) as nat).contains(j) {
            self.lemma_placed_in_layer((k - 1) as nat, j)
        } else {
            (k - 1) as nat
        }
    }

    /// No node belongs to two waves.
    pub proof fn lemma_layers_disjoint(self, k1: nat, k2: nat, j: int)
        requires
            self.layer(k1).contains(j),
            self.layer(k2).contains(j),
        ensures
            k1 == k2,
    {
        if k1 < k2 {
            self.lemma_placed_monotone(k1 + 1, k2);
            assert(self.placed(k1 + 1).contains(j));
        } else if k2 < k1 {
            self.lemma_placed_monotone(k2 + 1, k1);
            assert(self.placed(k2 + 1).contains(j));
        }
    }

    /// Within one tick a system runs after every system that has to come
    /// before it: where `i` has to come before `j`, the wave of `i` is an
    /// earlier one than the wave of `j`.
    pub proof fn lemma_edge_crosses_waves(self, i: int, j: int, k: nat) -> (at: nat)
        requires
            self.edge(i, j),
            self.layer(k).contains(j),
        ensures
            at < k,
            self.layer(at).contains(i),
    {
        self.lemma_placed_in_layer(k, i)
    }

    /// Once the waves hold every node, every later wave is empty.
    pub proof fn lemma_no_wave_after(self, waves: Seq<Seq<int>>, k: nat, j: int)
        requires
            self.layered_by(waves),
            k >= waves.len(),
        ensures
            !self.layer(k).contains(j),
    {
        self.lemma_placed_monotone(waves.len(), k);
    }

    /// The waves of a graph, joined, are an order of its nodes that honours
    /// every edge; so a graph that can be split into waves can be ordered.
    pub proof fn lemma_layered_orderable(self, waves: Seq<Seq<int>>)
        requires
            self.layered_by(waves),
        ensures
            self.valid_order(concat(waves)),
            self.orderable(),
    {
        let order = concat(waves);
        assert forall|a: int| 0 <= a < order.len() implies self.node(#[trigger] order[a]) by {
            let (k, q) = lemma_locate(waves, a);
            assert(waves[k].contains(order[a]));
            assert(self.layer(k as nat).contains(order[a]));
        }
        assert forall|a: int, b: int| 0 <= a < b < order.len() implies order[a] != order[b] by {
            let (ka, qa) = lemma_locate(waves, a);
            let (kb, qb) = lemma_locate(waves, b);
            assert(waves[ka].contains(order[a]));
            assert(waves[kb].contains(order[b]));
            if order[a] == order[b] {
                self.lemma_layers_disjoint(ka as nat, kb as nat, order[a]);
                assert(qa < qb);
                assert(waves[ka][qa] < waves[ka][qb]);
            }
        }
        assert forall|j: int| self.node(j) implies order.contains(j) by {
            let k = self.lemma_placed_in_layer(waves.len(), j);
            assert(waves[k as int].contains(j));
            let q = choose|q: int| 0 <= q < waves[k as int].len() && waves[k as int][q] == j;
            lemma_concat_at(waves, k as int);
            assert(order[offset(waves, k as int) + q] == j);
        }
        assert forall|a: int, b: int| 0 <= a <= b < order.len() implies !self.edge(
            #[trigger] order[b],
            #[trigger] order[a],
        ) by {
            if self.edge(order[b], order[a]) {
                let (ka, qa) = lemma_locate(waves, a);
                let (kb, qb) = lemma_locate(waves, b);
                assert(waves[ka].contains(order[a]));
                assert(waves[kb].contains(order[b]));
                let at = self.lemma_edge_crosses_waves(order[b], order[a], ka as nat);
                self.lemma_layers_disjoint(at, kb as nat, order[b]);
                lemma_offset_monotone(waves, kb, ka);
            }
        }
    }

    /// Ordering constraints are respected: where `i` has to come before `j`,
    /// `i` stands at an earlier position than `j` in the waves joined.
    pub proof fn lemma_order_respects_edges(self, waves: Seq<Seq<int>>, i: int, j: int) -> (ab: (
        int,
        int,
    ))
        requires
            self.layered_by(waves),
            self.edge(i, j),
        ensures
            0 <= ab.0 < ab.1 < concat(waves).len(),
            concat(waves)[ab.0] == i,
            concat(waves)[ab.1] == j,
    {
        self.lemma_layered_orderable(waves);
        let order = concat(waves);
        assert(order.contains(i));
        assert(order.contains(j));
        let a = choose|a: int| 0 <= a < order.len() && order[a] == i;
        let b = choose|b: int| 0 <= b < order.len() && order[b] == j;
        if b <= a {
            assert(!self.edge(order[a], order[b]));
        }
        (a, b)
    }
}

/// Joins the waves into the one sequence in which the systems run: wave
/// after wave, each in ascending order.
pub fn flatten(waves: &Vec<Vec<usize>>) -> (order: Vec<usize>)
    ensures
        order@.map_values(|x: usize| x as int) == concat(waves_view(waves@)),
{
    let mut order: Vec<usize> = Vec::new();
    let mut k: usize = 0;
    assert(waves_view(waves@).take(0) =~= Seq::<Seq<int>>::empty());
    while k < waves.len()
        invariant
            k <= waves.len(),
            order@.map_values(|x: usize| x as int) == concat(waves_view(waves@).take(k as int)),
        decreases waves.len() - k,
    {
        let wave = &waves[k];
        let ghost start = order@;
        let mut q: usize = 0;
        while q < wave.len()
            invariant
                q <= wave@.len(),
                order@ == start + wave@.take(q as int),
            decreases wave@.len() - q,
        {
            order.push(wave[q]);
            assert(wave@.take(q + 1) =~= wave@.take(q as int).push(wave@[q as int]));
            q += 1;
        }
        proof {
            let view = waves_view(waves@);
            let upto = view.take(k + 1);
            assert(upto.drop_last() =~= view.take(k as int));
            assert(wave@.take(q as int) =~= wave@);
            assert(upto.last() =~= wave@.map_values(|x: usize| x as int));
            assert(order@.map_values(|x: usize| x as int) =~= start.map_values(|x: usize| x as int)
                + wave@.map_values(|x: usize| x as int));
        }
        k += 1;
    }
    assert(waves_view(waves@).take(k as int) =~= waves_view(waves@));
    order
}

} // verus!
