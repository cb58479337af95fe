//! Triangle-level shortest-path search, run on a petgraph graph.
//!
//! The mesh's connections are poured into an undirected `petgraph`
//! graph whose edges carry the filtered, cost-scaled weights, and
//! `petgraph`'s A* (with a zero heuristic) finds the corridor.

use vstd::prelude::*;
use vstd::multiset::Multiset;
use petgraph::graph::Graph;
use petgraph::Undirected;
use crate::scalar::{fx_mul, fx_mul_spec, lemma_fx_mul_monotone};
use crate::mesh::{NavMesh, NavConnection, same_pair};

verus! {

#[verifier::external_type_specification]
#[verifier::external_body]
#[verifier::reject_recursive_types(N)]
#[verifier::reject_recursive_types(E)]
#[verifier::reject_recursive_types(Ty)]
#[verifier::reject_recursive_types(Ix)]
pub struct ExGraph<N, E, Ty, Ix>(Graph<N, E, Ty, Ix>);

#[verifier::external_type_specification]
#[verifier::external_body]
pub struct ExUndirected(Undirected);

/// How many nodes the graph holds.
pub uninterp spec fn graph_node_count(g: Graph<(), i64, Undirected, u32>) -> nat;

/// The edges the graph holds, as (endpoint, endpoint, weight) triples in
/// the orientation they were inserted with.
pub uninterp spec fn graph_edges(g: Graph<(), i64, Undirected, u32>) -> Multiset<
    (usize, usize, i64),
>;

/// The undirected edge set joins `a` and `b`.
pub open spec fn ms_has_edge(es: Multiset<(usize, usize, i64)>, a: int, b: int) -> bool {
    exists|t: (usize, usize, i64)|
        #[trigger] es.count(t) > 0 && ((t.0 == a && t.1 == b) || (t.0 == b && t.1 == a))
}

/// `p` walks from `from` to `to` along edges of `es`.
pub open spec fn is_graph_path(
    es: Multiset<(usize, usize, i64)>,
    p: Seq<usize>,
    from: int,
    to: int,
) -> bool {
    &&& p.len() >= 1
    &&& p[0] == from
    &&& p[p.len() - 1] == to
    &&& forall|i: int|
        0 <= i < p.len() - 1 ==> ms_has_edge(es, #[trigger] p[i] as int, p[i + 1] as int)
}

/// Some walk along edges of `es` joins `from` and `to`.
pub open spec fn ms_connected(es: Multiset<(usize, usize, i64)>, from: int, to: int) -> bool {
    exists|p: Seq<usize>| is_graph_path(es, p, from, to)
}

/// No two edges of `es` join the same unordered pair of nodes, so each
/// pair has at most one weight.
pub open spec fn ms_unique_pairs(es: Multiset<(usize, usize, i64)>) -> bool {
    forall|t1: (usize, usize, i64), t2: (usize, usize, i64)|
        #[trigger] es.count(t1) > 0 && #[trigger] es.count(t2) > 0 && ((t1.0 == t2.0 && t1.1
            == t2.1) || (t1.0 == t2.1 && t1.1 == t2.0)) ==> t1 == t2
}

/// The weight of the edge joining `a` and `b` (meaningful when exactly
/// one exists).
pub open spec fn ms_edge_weight(es: Multiset<(usize, usize, i64)>, a: int, b: int) -> int {
    (choose|t: (usize, usize, i64)|
        es.count(t) > 0 && ((t.0 == a && t.1 == b) || (t.0 == b && t.1 == a))).2 as int
}

/// Sum of the edge weights along the steps of `p` from step `i` on.
pub open spec fn ms_path_cost(es: Multiset<(usize, usize, i64)>, p: Seq<usize>, i: int) -> int
    decreases p.len() - i,
{
    if i < 0 || i >= p.len() - 1 {
        0
    } else {
        ms_edge_weight(es, p[i] as int, p[i + 1] as int) + ms_path_cost(es, p, i + 1)
    }
}

/// The edge `t` is connection `kk` of the mesh, in its stored
/// orientation, carrying that connection's capped traversal cost.
pub open spec fn edge_from_conn(m: NavMesh, t: (usize, usize, i64), kk: int) -> bool {
    &&& t.0 == m.connections@[kk].tris.0 as usize
    &&& t.1 == m.connections@[kk].tris.1 as usize
    &&& t.2 as int == m.conn_cost(t.0 as int, t.1 as int)
}

/// Under pair uniqueness, an edge joining `a` and `b` fixes the weight
/// of that pair.
pub proof fn lemma_ms_edge_weight_is(
    es: Multiset<(usize, usize, i64)>,
    a: int,
    b: int,
    t: (usize, usize, i64),
)
    requires
        ms_unique_pairs(es),
        es.count(t) > 0,
        (t.0 == a && t.1 == b) || (t.0 == b && t.1 == a),
    ensures
        ms_edge_weight(es, a, b) == t.2,
{
    let w = choose|w: (usize, usize, i64)|
        es.count(w) > 0 && ((w.0 == a && w.1 == b) || (w.0 == b && w.1 == a));
    assert(es.count(w) > 0 && ((w.0 == a && w.1 == b) || (w.0 == b && w.1 == a)));
    assert(w == t);
}

/// Relies on petgraph's `Graph::new_undirected`: the new graph has no
/// nodes and no edges.
#[verifier::external_body]
fn graph_new() -> (g: Graph<(), i64, Undirected, u32>)
    ensures
        graph_node_count(g) == 0,
        graph_edges(g) == Multiset::<(usize, usize, i64)>::empty(),
{
    Graph::new_undirected()
}

/// Relies on petgraph's `Graph::add_node`: appends one node whose index
/// is the previous node count and leaves the edges alone. The bound on
/// the node count keeps the index-type limit (where petgraph panics)
/// out of reach.
#[verifier::external_body]
fn graph_add_node(g: &mut Graph<(), i64, Undirected, u32>) -> (ix: usize)
    requires
        graph_node_count(*old(g)) < 0xFFFFFFFF,
    ensures
        ix == graph_node_count(*old(g)),
        graph_node_count(*final(g)) == graph_node_count(*old(g)) + 1,
        graph_edges(*final(g)) == graph_edges(*old(g)),
{
    g.add_node(()).index()
}

/// Relies on petgraph's `Graph::add_edge`: adds one edge between two
/// existing nodes and leaves the nodes alone. Both endpoints must exist
/// and the edge count must stay below the index-type limit; petgraph
/// panics on either.
#[verifier::external_body]
fn graph_add_edge(g: &mut Graph<(), i64, Undirected, u32>, a: usize, b: usize, w: i64)
    requires
        a < graph_node_count(*old(g)),
        b < graph_node_count(*old(g)),
        graph_edges(*old(g)).len() < 0xFFFFFFFF,
    ensures
        graph_node_count(*final(g)) == graph_node_count(*old(g)),
        graph_edges(*final(g)) == graph_edges(*old(g)).insert((a, b, w)),
{
    g.add_edge(
        petgraph::graph::NodeIndex::new(a),
        petgraph::graph::NodeIndex::new(b),
        w,
    );
}

/// Relies on petgraph's `astar` with a zero heuristic. Assumed, each
/// point visible in its source or documentation: a returned path is
/// reconstructed from relaxed edges, so it runs from `from` to `to`
/// along edges of the graph; the heuristic is zero, so the returned
/// score is the goal's accumulated sum of relaxed edge weights along
/// that chain (each predecessor is recorded together with its score,
/// and a popped score is final under nonnegative weights), which the
/// pair-uniqueness bound makes the weight sum of the path; petgraph
/// documents the result as the shortest path, so no chain of edges
/// costs less; the start node is tested first, so asking a node for
/// itself returns that node alone at cost zero; the predecessor chain
/// the path is read from cannot cycle under strict-improvement updates
/// (its reconstruction terminates), so the path visits no node twice;
/// `None` comes only after the frontier is exhausted, so only when no
/// chain of edges joins the two nodes. The weight bound keeps every
/// score addition inside `i64`.
#[verifier::external_body]
fn graph_astar(g: &Graph<(), i64, Undirected, u32>, from: usize, to: usize) -> (r: Option<
    (i64, Vec<usize>),
>)
    requires
        from < graph_node_count(*g),
        to < graph_node_count(*g),
        ms_unique_pairs(graph_edges(*g)),
        forall|t: (usize, usize, i64)|
            #[trigger] graph_edges(*g).count(t) > 0 ==> 0 <= t.2 <= i64::MAX as int / (
            graph_node_count(*g) as int + 1),
    ensures
        match r {
            Option::Some(cp) => {
                &&& is_graph_path(graph_edges(*g), cp.1@, from as int, to as int)
                &&& cp.0 >= 0
                &&& cp.0 as int == ms_path_cost(graph_edges(*g), cp.1@, 0)
                &&& forall|q: Seq<usize>|
                    is_graph_path(graph_edges(*g), q, from as int, to as int)
                        ==> ms_path_cost(graph_edges(*g), q, 0) >= cp.0 as int
                &&& forall|i: int, j: int|
                    0 <= i < j < cp.1@.len() ==> cp.1@[i] != cp.1@[j]
                &&& from == to ==> cp.1@ =~= seq![from] && cp.0 == 0
            },
            Option::None => from != to && !ms_connected(
                graph_edges(*g),
                from as int,
                to as int,
            ),
        },
{
    petgraph::algo::astar(
        g,
        petgraph::graph::NodeIndex::new(from),
        |n: petgraph::graph::NodeIndex<u32>| n.index() == to,
        |e: petgraph::graph::EdgeReference<i64, u32>| *e.weight(),
        |_n: petgraph::graph::NodeIndex<u32>| 0i64,
    ).map(|cp: (i64, Vec<petgraph::graph::NodeIndex<u32>>)|
        (cp.0, cp.1.into_iter().map(|n| n.index()).collect()))
}

/// A product of nonnegative scalars is nonnegative.
pub proof fn lemma_fx_mul_nonneg(a: int, b: int)
    requires
        a >= 0,
        b >= 0,
    ensures
        fx_mul_spec(a, b) >= 0,
{
    assert(a * b >= 0) by (nonlinear_arith)
        requires
            a >= 0,
            b >= 0,
    ;
}

impl NavMesh {
    /// `c` is a corridor of the mesh from triangle `s` to triangle `e`:
    /// nonempty, in range, each consecutive pair connected.
    pub open spec fn corridor_between(self, c: Seq<usize>, s: int, e: int) -> bool {
        &&& c.len() >= 1
        &&& c[0] == s
        &&& c[c.len() - 1] == e
        &&& forall|i: int| 0 <= i < c.len() ==> (#[trigger] c[i] as int) < self.triangles@.len()
        &&& forall|i: int|
            0 <= i < c.len() - 1 ==> self.has_connection(#[trigger] c[i] as int, c[i + 1] as int)
    }

    /// Some chain of triangle connections joins `from` and `to`.
    pub open spec fn spec_connected(self, from: int, to: int) -> bool {
        exists|p: Seq<usize>| self.corridor_between(p, from, to)
    }

    /// Cap applied to every edge cost so that corridor sums stay inside
    /// the scalar range.
    pub open spec fn weight_cap(self) -> int {
        i64::MAX as int / (self.triangles@.len() as int + 1)
    }

    /// The traversal cost the search charges for the connection joining
    /// triangles `a` and `b`: squared centroid distance times the cost
    /// factors of both triangles, capped at `weight_cap`.
    pub open spec fn conn_cost(self, a: int, b: int) -> int {
        let c = self.conn_at(a, b);
        let w = fx_mul_spec(
            fx_mul_spec(c.weight as int, self.areas@[c.tris.0 as int].cost as int),
            self.areas@[c.tris.1 as int].cost as int,
        );
        if w > self.weight_cap() {
            self.weight_cap()
        } else {
            w
        }
    }

    /// Sum of the connection costs along the steps of `p` from step `i`.
    pub open spec fn corridor_cost_from(self, p: Seq<usize>, i: int) -> int
        decreases p.len() - i,
    {
        if i < 0 || i >= p.len() - 1 {
            0
        } else {
            self.conn_cost(p[i] as int, p[i + 1] as int) + self.corridor_cost_from(p, i + 1)
        }
    }

    /// Total traversal cost of a corridor.
    pub open spec fn corridor_cost(self, p: Seq<usize>) -> int {
        self.corridor_cost_from(p, 0)
    }

    /// Under well-formedness the connection matching an unordered pair
    /// is unique, so `conn_at` returns exactly that entry.
    pub proof fn lemma_conn_at_of_pair(self, a: int, b: int, kk: int)
        requires
            self.wf(),
            0 <= kk < self.connections@.len(),
            same_pair(self.connections@[kk].tris, NavConnection(a as u32, b as u32)),
        ensures
            self.has_connection(a, b),
            self.conn_at(a, b) == self.connections@[kk],
    {
        assert(self.has_connection(a, b));
        let ci = self.conn_index(a, b);
        assert(0 <= ci < self.connections@.len() && same_pair(
            self.connections@[ci].tris,
            NavConnection(a as u32, b as u32),
        ));
        if ci != kk {
            assert(!same_pair(self.connections@[ci].tris, self.connections@[kk].tris));
            assert(false);
        }
    }

    /// The charged cost of a connection does not care about the order
    /// of its endpoints.
    pub proof fn lemma_conn_cost_sym(self, a: int, b: int)
        requires
            self.wf(),
            self.has_connection(a, b),
        ensures
            self.conn_cost(b, a) == self.conn_cost(a, b),
            self.conn_at(b, a) == self.conn_at(a, b),
    {
        let kk = self.conn_index(a, b);
        assert(0 <= kk < self.connections@.len() && same_pair(
            self.connections@[kk].tris,
            NavConnection(a as u32, b as u32),
        ));
        assert(same_pair(self.connections@[kk].tris, NavConnection(b as u32, a as u32)));
        self.lemma_conn_at_of_pair(b, a, kk);
        self.lemma_conn_at_of_pair(a, b, kk);
    }

    /// When every edge of `es` carries its pair's connection cost and
    /// every step of `p` has an edge, the graph cost of `p` is its
    /// corridor cost.
    proof fn lemma_path_cost_eq(self, es: Multiset<(usize, usize, i64)>, p: Seq<usize>, i: int)
        requires
            self.wf(),
            ms_unique_pairs(es),
            forall|t: (usize, usize, i64)|
                #[trigger] es.count(t) > 0 ==> t.2 as int == self.conn_cost(
                    t.0 as int,
                    t.1 as int,
                ),
            forall|j: int|
                0 <= j < p.len() - 1 ==> ms_has_edge(es, #[trigger] p[j] as int, p[j + 1] as int),
            forall|j: int|
                0 <= j < p.len() - 1 ==> self.has_connection(
                    #[trigger] p[j] as int,
                    p[j + 1] as int,
                ),
            0 <= i,
        ensures
            ms_path_cost(es, p, i) == self.corridor_cost_from(p, i),
        decreases p.len() - i,
    {
        if i < p.len() - 1 {
            let a = p[i] as int;
            let b = p[i + 1] as int;
            assert(ms_has_edge(es, a, b));
            let t = choose|t: (usize, usize, i64)|
                #[trigger] es.count(t) > 0 && ((t.0 == a && t.1 == b) || (t.0 == b && t.1
                    == a));
            lemma_ms_edge_weight_is(es, a, b, t);
            if t.0 == b && t.1 == a {
                self.lemma_conn_cost_sym(a, b);
            }
            assert(ms_edge_weight(es, a, b) == self.conn_cost(a, b));
            self.lemma_path_cost_eq(es, p, i + 1);
        }
    }

    /// `has_connection` does not care about the order of its arguments.
    pub proof fn lemma_has_connection_sym(self, a: int, b: int)
        requires
            self.has_connection(a, b),
        ensures
            self.has_connection(b, a),
    {
        let k = choose|k: int|
            0 <= k < self.connections@.len() && same_pair(
                (#[trigger] self.connections@[k]).tris,
                NavConnection(a as u32, b as u32),
            );
        assert(same_pair(self.connections@[k].tris, NavConnection(b as u32, a as u32)));
    }

    /// Raising traverse costs never lowers the charged cost of any
    /// corridor: when two meshes share everything but their per-triangle
    /// costs, and the second's costs are at least the first's, every
    /// corridor is at least as expensive on the second. Together with
    /// the search contracts (the reported cost is that of a cheapest
    /// corridor), raising costs along the only corridor joining two
    /// triangles can therefore never lower the reported cost.
    pub proof fn lemma_corridor_cost_monotone(m1: NavMesh, m2: NavMesh, q: Seq<usize>, i: int)
        requires
            m1.wf(),
            m2.wf(),
            m2.connections@ == m1.connections@,
            m2.triangles@.len() == m1.triangles@.len(),
            m2.areas@.len() == m1.areas@.len(),
            forall|t: int|
                0 <= t < m1.areas@.len() ==> (#[trigger] m2.areas@[t]).cost
                    >= m1.areas@[t].cost,
            forall|j: int|
                0 <= j < q.len() - 1 ==> m1.has_connection(
                    #[trigger] q[j] as int,
                    q[j + 1] as int,
                ),
            0 <= i,
        ensures
            m2.corridor_cost_from(q, i) >= m1.corridor_cost_from(q, i),
        decreases q.len() - i,
    {
        if i < q.len() - 1 {
            let a = q[i] as int;
            let b = q[i + 1] as int;
            let kk = m1.conn_index(a, b);
            assert(0 <= kk < m1.connections@.len() && same_pair(
                m1.connections@[kk].tris,
                NavConnection(a as u32, b as u32),
            ));
            m1.lemma_conn_at_of_pair(a, b, kk);
            assert(same_pair(m2.connections@[kk].tris, NavConnection(a as u32, b as u32)));
            m2.lemma_conn_at_of_pair(a, b, kk);
            let c = m1.connections@[kk];
            assert(m1.conn_wf(c));
            let ca1 = m1.areas@[c.tris.0 as int].cost as int;
            let cb1 = m1.areas@[c.tris.1 as int].cost as int;
            let ca2 = m2.areas@[c.tris.0 as int].cost as int;
            let cb2 = m2.areas@[c.tris.1 as int].cost as int;
            lemma_fx_mul_monotone(c.weight as int, ca1, c.weight as int, ca2);
            lemma_fx_mul_monotone(
                fx_mul_spec(c.weight as int, ca1),
                cb1,
                fx_mul_spec(c.weight as int, ca2),
                cb2,
            );
            assert(m2.weight_cap() == m1.weight_cap());
            assert(m2.conn_cost(a, b) >= m1.conn_cost(a, b));
            Self::lemma_corridor_cost_monotone(m1, m2, q, i + 1);
        }
    }

    /// Shortest corridor of triangles from `from` to `to` under the edge
    /// `filter`: A* over the connection graph, each passing edge charged
    /// `conn_cost` (squared centroid distance times the costs of both
    /// triangles, capped so path sums stay in range). An edge the filter
    /// refuses is unusable. The returned cost is the sum of the charged
    /// costs along the returned corridor, and no corridor every step of
    /// which the filter can only approve costs less; if every step of
    /// some corridor can only be approved, the search cannot fail.
    #[verifier::rlimit(100)]
    pub fn find_path_triangles_custom<F: Fn(i64, usize, usize) -> bool>(
        &self,
        from: usize,
        to: usize,
        filter: F,
    ) -> (r: Option<(Vec<usize>, i64)>)
        requires
            self.wf(),
            from < self.triangles@.len(),
            to < self.triangles@.len(),
            self.connections@.len() < 0xFFFFFFFF,
            forall|w: i64, a: usize, b: usize| #[trigger] filter.requires((w, a, b)),
        ensures
            match r {
                Option::Some(pc) => {
                    &&& pc.1 >= 0
                    &&& pc.0@.len() >= 1
                    &&& pc.0@[0] == from
                    &&& pc.0@[pc.0@.len() - 1] == to
                    &&& forall|i: int|
                        0 <= i < pc.0@.len() ==> (#[trigger] pc.0@[i]) < self.triangles@.len()
                    &&& forall|i: int|
                        0 <= i < pc.0@.len() - 1 ==> self.has_connection(
                            #[trigger] pc.0@[i] as int,
                            pc.0@[i + 1] as int,
                        )
                    &&& pc.1 as int == self.corridor_cost(pc.0@)
                    &&& forall|i: int, j: int|
                        0 <= i < j < pc.0@.len() ==> pc.0@[i] != pc.0@[j]
                    &&& forall|i: int|
                        0 <= i < pc.0@.len() - 1 ==> filter.ensures(
                            (
                                (#[trigger] self.conn_at(
                                    pc.0@[i] as int,
                                    pc.0@[i + 1] as int,
                                )).weight,
                                self.conn_at(pc.0@[i] as int, pc.0@[i + 1] as int).tris.0
                                    as usize,
                                self.conn_at(pc.0@[i] as int, pc.0@[i + 1] as int).tris.1
                                    as usize,
                            ),
                            true,
                        )
                    &&& forall|q: Seq<usize>|
                        #[trigger] self.corridor_between(q, from as int, to as int) && (
                        forall|j: int, ret: bool|
                            0 <= j < q.len() - 1 && #[trigger] filter.ensures(
                                (
                                    (self.conn_at(q[j] as int, q[j + 1] as int)).weight,
                                    self.conn_at(q[j] as int, q[j + 1] as int).tris.0 as usize,
                                    self.conn_at(q[j] as int, q[j + 1] as int).tris.1 as usize,
                                ),
                                ret,
                            ) ==> ret) ==> self.corridor_cost(q) >= pc.1 as int
                    &&& from == to ==> pc.0@ =~= seq![from] && pc.1 == 0
                },
                Option::None => from != to,
            },
            (from != to && forall|w: i64, a: usize, b: usize, ret: bool|
                #[trigger] filter.ensures((w, a, b), ret) ==> !ret) ==> r is None,
            r is None ==> !(exists|q: Seq<usize>|
                #[trigger] self.corridor_between(q, from as int, to as int) && (forall|
                    j: int,
                    ret: bool,
                |
                    0 <= j < q.len() - 1 && #[trigger] filter.ensures(
                        (
                            (self.conn_at(q[j] as int, q[j + 1] as int)).weight,
                            self.conn_at(q[j] as int, q[j + 1] as int).tris.0 as usize,
                            self.conn_at(q[j] as int, q[j + 1] as int).tris.1 as usize,
                        ),
                        ret,
                    ) ==> ret)),
    {
        let n = self.triangles.len();
        let mut g = graph_new();
        let mut i: usize = 0;
        while i < n
            invariant
                0 <= i <= n,
                n < u32::MAX as int,
                graph_node_count(g) == i,
                graph_edges(g) == Multiset::<(usize, usize, i64)>::empty(),
            decreases n - i,
        {
            let _ix = graph_add_node(&mut g);
            i = i + 1;
        }
        let cap_u: u64 = (i64::MAX as u64) / (n as u64 + 1);
        let cap: i64 = cap_u as i64;
        assert(cap as int == self.weight_cap());
        let m = self.connections.len();
        let mut k: usize = 0;
        while k < m
            invariant
                0 <= k <= m,
                m == self.connections@.len(),
                m < 0xFFFFFFFF,
                n == self.triangles@.len(),
                n < u32::MAX as int,
                self.wf(),
                cap as int == self.weight_cap(),
                cap >= 0,
                graph_node_count(g) == n,
                graph_edges(g).len() <= k,
                forall|w: i64, a: usize, b: usize| #[trigger] filter.requires((w, a, b)),
                forall|t: (usize, usize, i64)|
                    #[trigger] graph_edges(g).count(t) > 0 ==> {
                        &&& 0 <= t.2 <= cap
                        &&& t.0 < n && t.1 < n
                        &&& self.has_connection(t.0 as int, t.1 as int)
                    },
                forall|t: (usize, usize, i64)|
                    #[trigger] graph_edges(g).count(t) > 0 ==> exists|kk: int|
                        0 <= kk < k as int && #[trigger] edge_from_conn(*self, t, kk)
                            && filter.ensures(
                            (
                                self.connections@[kk].weight,
                                self.connections@[kk].tris.0 as usize,
                                self.connections@[kk].tris.1 as usize,
                            ),
                            true,
                        ),
                forall|kk: int|
                    #![trigger self.connections@[kk]]
                    0 <= kk < k as int && (forall|ret: bool|
                        #[trigger] filter.ensures(
                            (
                                self.connections@[kk].weight,
                                self.connections@[kk].tris.0 as usize,
                                self.connections@[kk].tris.1 as usize,
                            ),
                            ret,
                        ) ==> ret) ==> ms_has_edge(
                        graph_edges(g),
                        self.connections@[kk].tris.0 as int,
                        self.connections@[kk].tris.1 as int,
                    ),
            decreases m - k,
        {
            let c = self.connections[k];
            let ca = self.areas[c.tris.0 as usize].cost;
            let cb = self.areas[c.tris.1 as usize].cost;
            let w0 = fx_mul(fx_mul(c.weight, ca), cb);
            proof {
                lemma_fx_mul_nonneg(c.weight as int, ca as int);
                lemma_fx_mul_nonneg(fx_mul_spec(c.weight as int, ca as int), cb as int);
            }
            let w = if w0 > cap {
                cap
            } else {
                w0
            };
            let ghost pre = graph_edges(g);
            let passed = filter(c.weight, c.tris.0 as usize, c.tris.1 as usize);
            if passed {
                proof {
                    assert(self.conn_wf(self.connections@[k as int]));
                    assert(same_pair(c.tris, NavConnection(c.tris.0, c.tris.1)));
                }
                graph_add_edge(&mut g, c.tris.0 as usize, c.tris.1 as usize, w);
                proof {
                    let es = graph_edges(g);
                    let nt = (c.tris.0 as usize, c.tris.1 as usize, w);
                    assert(es.count(nt) > 0);
                    self.lemma_conn_at_of_pair(c.tris.0 as int, c.tris.1 as int, k as int);
                    assert(w as int == self.conn_cost(c.tris.0 as int, c.tris.1 as int));
                    assert(edge_from_conn(*self, nt, k as int));
                    assert(filter.ensures((c.weight, c.tris.0 as usize, c.tris.1 as usize), true));
                    assert forall|t: (usize, usize, i64)| #[trigger] es.count(t) > 0 implies
                        exists|kk: int|
                            0 <= kk < k as int + 1 && #[trigger] edge_from_conn(*self, t, kk)
                                && filter.ensures(
                                (
                                    self.connections@[kk].weight,
                                    self.connections@[kk].tris.0 as usize,
                                    self.connections@[kk].tris.1 as usize,
                                ),
                                true,
                            ) by {
                        if pre.count(t) > 0 {
                            let kk = choose|kk: int|
                                0 <= kk < k as int && #[trigger] edge_from_conn(*self, t, kk)
                                    && filter.ensures(
                                    (
                                        self.connections@[kk].weight,
                                        self.connections@[kk].tris.0 as usize,
                                        self.connections@[kk].tris.1 as usize,
                                    ),
                                    true,
                                );
                            assert(edge_from_conn(*self, t, kk));
                        } else {
                            assert(t == nt);
                            assert(edge_from_conn(*self, t, k as int));
                        }
                    }
                    assert forall|kk: int|
                        #![trigger self.connections@[kk]]
                        0 <= kk < k as int + 1 && (forall|ret: bool|
                            #[trigger] filter.ensures(
                                (
                                    self.connections@[kk].weight,
                                    self.connections@[kk].tris.0 as usize,
                                    self.connections@[kk].tris.1 as usize,
                                ),
                                ret,
                            ) ==> ret) implies ms_has_edge(
                        es,
                        self.connections@[kk].tris.0 as int,
                        self.connections@[kk].tris.1 as int,
                    ) by {
                        if kk < k as int {
                            assert(ms_has_edge(
                                pre,
                                self.connections@[kk].tris.0 as int,
                                self.connections@[kk].tris.1 as int,
                            ));
                            let t = choose|t: (usize, usize, i64)|
                                #[trigger] pre.count(t) > 0 && ((t.0 as int
                                    == self.connections@[kk].tris.0 as int && t.1 as int
                                    == self.connections@[kk].tris.1 as int) || (t.0 as int
                                    == self.connections@[kk].tris.1 as int && t.1 as int
                                    == self.connections@[kk].tris.0 as int));
                            assert(es.count(t) > 0);
                        } else {
                            assert(es.count(nt) > 0);
                        }
                    }
                }
            } else {
                proof {
                    assert(filter.ensures(
                        (c.weight, c.tris.0 as usize, c.tris.1 as usize),
                        false,
                    ));
                    let es = graph_edges(g);
                    assert forall|t: (usize, usize, i64)| #[trigger] es.count(t) > 0 implies
                        exists|kk: int|
                            0 <= kk < k as int + 1 && #[trigger] edge_from_conn(*self, t, kk)
                                && filter.ensures(
                                (
                                    self.connections@[kk].weight,
                                    self.connections@[kk].tris.0 as usize,
                                    self.connections@[kk].tris.1 as usize,
                                ),
                                true,
                            ) by {
                        let kk = choose|kk: int|
                            0 <= kk < k as int && #[trigger] edge_from_conn(*self, t, kk)
                                && filter.ensures(
                                (
                                    self.connections@[kk].weight,
                                    self.connections@[kk].tris.0 as usize,
                                    self.connections@[kk].tris.1 as usize,
                                ),
                                true,
                            );
                        assert(edge_from_conn(*self, t, kk));
                    }
                }
            }
            k = k + 1;
        }
        proof {
            let es = graph_edges(g);
            assert forall|t1: (usize, usize, i64), t2: (usize, usize, i64)|
                #[trigger] es.count(t1) > 0 && #[trigger] es.count(t2) > 0 && ((t1.0 == t2.0
                    && t1.1 == t2.1) || (t1.0 == t2.1 && t1.1 == t2.0)) implies t1 == t2 by {
                let kk1 = choose|kk: int|
                    0 <= kk < m as int && #[trigger] edge_from_conn(*self, t1, kk)
                        && filter.ensures(
                        (
                            self.connections@[kk].weight,
                            self.connections@[kk].tris.0 as usize,
                            self.connections@[kk].tris.1 as usize,
                        ),
                        true,
                    );
                let kk2 = choose|kk: int|
                    0 <= kk < m as int && #[trigger] edge_from_conn(*self, t2, kk)
                        && filter.ensures(
                        (
                            self.connections@[kk].weight,
                            self.connections@[kk].tris.0 as usize,
                            self.connections@[kk].tris.1 as usize,
                        ),
                        true,
                    );
                assert(edge_from_conn(*self, t1, kk1));
                assert(edge_from_conn(*self, t2, kk2));
                if kk1 != kk2 {
                    assert(same_pair(
                        self.connections@[kk1].tris,
                        self.connections@[kk2].tris,
                    ));
                    assert(false);
                }
            }
            assert(ms_unique_pairs(es));
        }
        let res = graph_astar(&g, from, to);
        match res {
            Option::Some(cp) => {
                let (cost, path) = cp;
                proof {
                    let es = graph_edges(g);
                    assert forall|t: (usize, usize, i64)| #[trigger] es.count(t) > 0 implies
                        t.2 as int == self.conn_cost(t.0 as int, t.1 as int) by {
                        let kk = choose|kk: int|
                            0 <= kk < m as int && #[trigger] edge_from_conn(*self, t, kk)
                                && filter.ensures(
                                (
                                    self.connections@[kk].weight,
                                    self.connections@[kk].tris.0 as usize,
                                    self.connections@[kk].tris.1 as usize,
                                ),
                                true,
                            );
                        assert(edge_from_conn(*self, t, kk));
                    }
                    assert forall|i: int| 0 <= i < path@.len() implies (#[trigger] path@[i])
                        < self.triangles@.len() by {
                        if i > 0 {
                            assert(ms_has_edge(es, path@[i - 1] as int, path@[i] as int));
                            let t = choose|t: (usize, usize, i64)|
                                #[trigger] es.count(t) > 0 && ((t.0 == path@[i - 1] && t.1
                                    == path@[i]) || (t.0 == path@[i] && t.1 == path@[i - 1]));
                            assert(t.0 < n && t.1 < n);
                        }
                    }
                    assert forall|i: int| 0 <= i < path@.len() - 1 implies self.has_connection(
                        #[trigger] path@[i] as int,
                        path@[i + 1] as int,
                    ) by {
                        assert(ms_has_edge(es, path@[i] as int, path@[i + 1] as int));
                        let t = choose|t: (usize, usize, i64)|
                            #[trigger] es.count(t) > 0 && ((t.0 == path@[i] && t.1 == path@[i
                                + 1]) || (t.0 == path@[i + 1] && t.1 == path@[i]));
                        assert(self.has_connection(t.0 as int, t.1 as int));
                        if t.0 == path@[i + 1] && t.1 == path@[i] {
                            self.lemma_has_connection_sym(t.0 as int, t.1 as int);
                        }
                    }
                    self.lemma_path_cost_eq(es, path@, 0);
                    assert forall|i: int| 0 <= i < path@.len() - 1 implies filter.ensures(
                        (
                            (#[trigger] self.conn_at(path@[i] as int, path@[i + 1] as int)).weight,
                            self.conn_at(path@[i] as int, path@[i + 1] as int).tris.0 as usize,
                            self.conn_at(path@[i] as int, path@[i + 1] as int).tris.1 as usize,
                        ),
                        true,
                    ) by {
                        assert(ms_has_edge(es, path@[i] as int, path@[i + 1] as int));
                        let t = choose|t: (usize, usize, i64)|
                            #[trigger] es.count(t) > 0 && ((t.0 == path@[i] && t.1 == path@[i
                                + 1]) || (t.0 == path@[i + 1] && t.1 == path@[i]));
                        let kk = choose|kk: int|
                            0 <= kk < m as int && #[trigger] edge_from_conn(*self, t, kk)
                                && filter.ensures(
                                (
                                    self.connections@[kk].weight,
                                    self.connections@[kk].tris.0 as usize,
                                    self.connections@[kk].tris.1 as usize,
                                ),
                                true,
                            );
                        assert(edge_from_conn(*self, t, kk));
                        assert(same_pair(
                            self.connections@[kk].tris,
                            NavConnection(path@[i] as u32, path@[i + 1] as u32),
                        ));
                        self.lemma_conn_at_of_pair(path@[i] as int, path@[i + 1] as int, kk);
                    }
                    assert forall|q: Seq<usize>|
                        #[trigger] self.corridor_between(q, from as int, to as int) && (
                        forall|j: int, ret: bool|
                            0 <= j < q.len() - 1 && #[trigger] filter.ensures(
                                (
                                    (self.conn_at(q[j] as int, q[j + 1] as int)).weight,
                                    self.conn_at(q[j] as int, q[j + 1] as int).tris.0 as usize,
                                    self.conn_at(q[j] as int, q[j + 1] as int).tris.1 as usize,
                                ),
                                ret,
                            ) ==> ret) implies self.corridor_cost(q) >= cost as int by {
                        assert forall|j: int| 0 <= j < q.len() - 1 implies ms_has_edge(
                            es,
                            #[trigger] q[j] as int,
                            q[j + 1] as int,
                        ) by {
                            let kk = self.conn_index(q[j] as int, q[j + 1] as int);
                            assert(0 <= kk < self.connections@.len() && same_pair(
                                self.connections@[kk].tris,
                                NavConnection(q[j] as u32, q[j + 1] as u32),
                            ));
                            self.lemma_conn_at_of_pair(q[j] as int, q[j + 1] as int, kk);
                            assert(ms_has_edge(
                                es,
                                self.connections@[kk].tris.0 as int,
                                self.connections@[kk].tris.1 as int,
                            ));
                            let t = choose|t: (usize, usize, i64)|
                                #[trigger] es.count(t) > 0 && ((t.0 as int
                                    == self.connections@[kk].tris.0 as int && t.1 as int
                                    == self.connections@[kk].tris.1 as int) || (t.0 as int
                                    == self.connections@[kk].tris.1 as int && t.1 as int
                                    == self.connections@[kk].tris.0 as int));
                            assert(es.count(t) > 0 && ((t.0 == q[j] as int && t.1 == q[j + 1]
                                as int) || (t.0 == q[j + 1] as int && t.1 == q[j] as int)));
                        }
                        assert(is_graph_path(es, q, from as int, to as int));
                        assert(ms_path_cost(es, q, 0) >= cost as int);
                        self.lemma_path_cost_eq(es, q, 0);
                    }
                    if from != to && (forall|fw: i64, fa: usize, fb: usize, ret: bool|
                        #[trigger] filter.ensures((fw, fa, fb), ret) ==> !ret) {
                        assert(path@.len() >= 2);
                        assert(ms_has_edge(es, path@[0] as int, path@[1] as int));
                        let t = choose|t: (usize, usize, i64)|
                            #[trigger] es.count(t) > 0 && ((t.0 == path@[0] && t.1
                                == path@[1]) || (t.0 == path@[1] && t.1 == path@[0]));
                        let kk = choose|kk: int|
                            0 <= kk < m as int && #[trigger] edge_from_conn(*self, t, kk)
                                && filter.ensures(
                                (
                                    self.connections@[kk].weight,
                                    self.connections@[kk].tris.0 as usize,
                                    self.connections@[kk].tris.1 as usize,
                                ),
                                true,
                            );
                        assert(false);
                    }
                }
                Option::Some((path, cost))
            },
            Option::None => {
                proof {
                    let es = graph_edges(g);
                    if exists|q: Seq<usize>|
                        #[trigger] self.corridor_between(q, from as int, to as int) && (
                        forall|j: int, ret: bool|
                            0 <= j < q.len() - 1 && #[trigger] filter.ensures(
                                (
                                    (self.conn_at(q[j] as int, q[j + 1] as int)).weight,
                                    self.conn_at(q[j] as int, q[j + 1] as int).tris.0 as usize,
                                    self.conn_at(q[j] as int, q[j + 1] as int).tris.1 as usize,
                                ),
                                ret,
                            ) ==> ret) {
                        let q = choose|q: Seq<usize>|
                            #[trigger] self.corridor_between(q, from as int, to as int) && (
                            forall|j: int, ret: bool|
                                0 <= j < q.len() - 1 && #[trigger] filter.ensures(
                                    (
                                        (self.conn_at(
                                            q[j] as int,
                                            q[j + 1] as int,
                                        )).weight,
                                        self.conn_at(q[j] as int, q[j + 1] as int).tris.0
                                            as usize,
                                        self.conn_at(q[j] as int, q[j + 1] as int).tris.1
                                            as usize,
                                    ),
                                    ret,
                                ) ==> ret);
                        assert forall|j: int| 0 <= j < q.len() - 1 implies ms_has_edge(
                            es,
                            #[trigger] q[j] as int,
                            q[j + 1] as int,
                        ) by {
                            let kk = self.conn_index(q[j] as int, q[j + 1] as int);
                            assert(0 <= kk < self.connections@.len() && same_pair(
                                self.connections@[kk].tris,
                                NavConnection(q[j] as u32, q[j + 1] as u32),
                            ));
                            self.lemma_conn_at_of_pair(q[j] as int, q[j + 1] as int, kk);
                            assert(ms_has_edge(
                                es,
                                self.connections@[kk].tris.0 as int,
                                self.connections@[kk].tris.1 as int,
                            ));
                            let t = choose|t: (usize, usize, i64)|
                                #[trigger] es.count(t) > 0 && ((t.0 as int
                                    == self.connections@[kk].tris.0 as int && t.1 as int
                                    == self.connections@[kk].tris.1 as int) || (t.0 as int
                                    == self.connections@[kk].tris.1 as int && t.1 as int
                                    == self.connections@[kk].tris.0 as int));
                            assert(es.count(t) > 0 && ((t.0 == q[j] as int && t.1 == q[j + 1]
                                as int) || (t.0 == q[j + 1] as int && t.1 == q[j] as int)));
                        }
                        assert(is_graph_path(es, q, from as int, to as int));
                        assert(ms_connected(es, from as int, to as int));
                        assert(false);
                    }
                }
                Option::None
            },
        }
    }

    /// Shortest corridor of triangles from `from` to `to` with every
    /// connection usable; see `find_path_triangles_custom`. The cost is
    /// the sum of the charged connection costs along the corridor, no
    /// corridor between the two triangles costs less, and the search
    /// fails only when the triangles are disconnected.
    pub fn find_path_triangles(&self, from: usize, to: usize) -> (r: Option<(Vec<usize>, i64)>)
        requires
            self.wf(),
            from < self.triangles@.len(),
            to < self.triangles@.len(),
            self.connections@.len() < 0xFFFFFFFF,
        ensures
            match r {
                Option::Some(pc) => {
                    &&& pc.1 >= 0
                    &&& pc.0@.len() >= 1
                    &&& pc.0@[0] == from
                    &&& pc.0@[pc.0@.len() - 1] == to
                    &&& forall|i: int|
                        0 <= i < pc.0@.len() ==> (#[trigger] pc.0@[i]) < self.triangles@.len()
                    &&& forall|i: int|
                        0 <= i < pc.0@.len() - 1 ==> self.has_connection(
                            #[trigger] pc.0@[i] as int,
                            pc.0@[i + 1] as int,
                        )
                    &&& pc.1 as int == self.corridor_cost(pc.0@)
                    &&& forall|i: int, j: int|
                        0 <= i < j < pc.0@.len() ==> pc.0@[i] != pc.0@[j]
                    &&& forall|q: Seq<usize>|
                        #[trigger] self.corridor_between(q, from as int, to as int)
                            ==> self.corridor_cost(q) >= pc.1 as int
                    &&& from == to ==> pc.0@ =~= seq![from] && pc.1 == 0
                },
                Option::None => from != to && !self.spec_connected(from as int, to as int),
            },
    {
        let cl = (|_w: i64, _a: usize, _b: usize| -> (r: bool)
            ensures
                r,
            { true });
        let r = self.find_path_triangles_custom(from, to, cl);
        proof {
            if r is Some {
                let pc = r->Some_0;
                {
                    assert forall|q: Seq<usize>|
                        #[trigger] self.corridor_between(q, from as int, to as int) implies
                        self.corridor_cost(q) >= pc.1 as int by {
                        assert(forall|j: int, ret: bool|
                            0 <= j < q.len() - 1 && #[trigger] cl.ensures(
                                (
                                    (self.conn_at(q[j] as int, q[j + 1] as int)).weight,
                                    self.conn_at(q[j] as int, q[j + 1] as int).tris.0 as usize,
                                    self.conn_at(q[j] as int, q[j + 1] as int).tris.1 as usize,
                                ),
                                ret,
                            ) ==> ret);
                    }
                }
            } else {
                {
                    if self.spec_connected(from as int, to as int) {
                        let q = choose|q: Seq<usize>|
                            self.corridor_between(q, from as int, to as int);
                        assert(self.corridor_between(q, from as int, to as int) && (forall|
                            j: int,
                            ret: bool,
                        |
                            0 <= j < q.len() - 1 && #[trigger] cl.ensures(
                                (
                                    (self.conn_at(q[j] as int, q[j + 1] as int)).weight,
                                    self.conn_at(q[j] as int, q[j + 1] as int).tris.0 as usize,
                                    self.conn_at(q[j] as int, q[j + 1] as int).tris.1 as usize,
                                ),
                                ret,
                            ) ==> ret));
                        assert(false);
                    }
                }
            }
        }
        r
    }
}

} // verus!
