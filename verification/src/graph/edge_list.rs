use vstd::prelude::*;

use super::topology::directed::{differs_from, kind_of, others, DirectedTopology, RelationalTopology};
use super::topology::{EdgeTopology, NodeTopology};
use super::Topology;

verus! {

/// A graph kept as a list of nodes and a list of edges. Edge `i` is the pair
/// `edges[i]`; read as directed, it leads from its first node (the parent)
/// to its second (the child).
pub struct Graph {
    pub nodes: Vec<u32>,
    pub edges: Vec<(u32, u32)>,
}

/// The parents of `id` along `edges`: the first node of each edge whose
/// second node is `id`, in the order of the edges.
pub open spec fn parents_in(edges: Seq<(u32, u32)>, id: u32) -> Seq<u32>
    decreases edges.len(),
{
    if edges.len() == 0 {
        Seq::empty()
    } else {
        let rest = parents_in(edges.drop_last(), id);
        if edges.last().1 == id {
            rest.push(edges.last().0)
        } else {
            rest
        }
    }
}

/// The children of `id` along `edges`: the second node of each edge whose
/// first node is `id`, in the order of the edges.
pub open spec fn children_in(edges: Seq<(u32, u32)>, id: u32) -> Seq<u32>
    decreases edges.len(),
{
    if edges.len() == 0 {
        Seq::empty()
    } else {
        let rest = children_in(edges.drop_last(), id);
        if edges.last().0 == id {
            rest.push(edges.last().1)
        } else {
            rest
        }
    }
}

/// The positions `0 .. n`, in order.
pub open spec fn positions(n: nat) -> Seq<usize> {
    Seq::new(n, |i: int| i as usize)
}

/// The positions below `n` of the edges of which `id` is an endpoint, in order.
pub open spec fn edges_at_before(edges: Seq<(u32, u32)>, id: u32, n: nat) -> Seq<usize>
    decreases n,
{
    if n == 0 {
        Seq::empty()
    } else {
        let rest = edges_at_before(edges, id, (n - 1) as nat);
        let e = edges[n - 1];
        if e.0 == id || e.1 == id {
            rest.push((n - 1) as usize)
        } else {
            rest
        }
    }
}

/// The positions of the edges of which `id` is an endpoint, in order.
pub open spec fn edges_at(edges: Seq<(u32, u32)>, id: u32) -> Seq<usize> {
    edges_at_before(edges, id, edges.len())
}

/// The edge at position `i`, or `None` past the end.
pub open spec fn edge_at(edges: Seq<(u32, u32)>, i: usize) -> Option<(u32, u32)> {
    if i < edges.len() {
        Some(edges[i as int])
    } else {
        None
    }
}

/// An edge from `p` to `c` makes `p` a parent of `c` and `c` a child of
/// `p`, and nothing else does: parents and children mirror each other.
pub proof fn lemma_parents_mirror_children(edges: Seq<(u32, u32)>, p: u32, c: u32)
    ensures
        parents_in(edges, c).contains(p) <==> edges.contains((p, c)),
        children_in(edges, p).contains(c) <==> edges.contains((p, c)),
    decreases edges.len(),
{
    broadcast use vstd::seq_lib::group_seq_properties;

    if edges.len() > 0 {
        let init = edges.drop_last();
        lemma_parents_mirror_children(init, p, c);
        assert(edges =~= init.push(edges.last()));
    }
}

/// A loop at a node changes the kind of no node: kinds count only the
/// neighbours of a node other than itself.
pub proof fn lemma_self_loop_keeps_kinds(g: &Graph, h: &Graph, id: u32, x: u32)
    requires
        h.edges@ == g.edges@.push((id, id)),
    ensures
        kind_of(h, x) == kind_of(g, x),
{
    broadcast use vstd::seq_lib::group_filter_ensures;

    assert(h.edges@.drop_last() =~= g.edges@);
    let ps = parents_in(g.edges@, x);
    let cs = children_in(g.edges@, x);
    if id == x {
        assert(parents_in(h.edges@, x) == ps.push(x));
        assert(children_in(h.edges@, x) == cs.push(x));
        ps.lemma_filter_push(x, differs_from(x));
        cs.lemma_filter_push(x, differs_from(x));
        assert(others(ps.push(x), x) == others(ps, x));
        assert(others(cs.push(x), x) == others(cs, x));
    } else {
        assert(parents_in(h.edges@, x) == ps);
        assert(children_in(h.edges@, x) == cs);
    }
}

/// The positions below `n` that `edges_at_before` lists are exactly those of
/// the edges with `id` as an endpoint, each once, in increasing order.
proof fn lemma_edges_at_before(edges: Seq<(u32, u32)>, id: u32, n: nat)
    requires
        n <= edges.len(),
        n <= usize::MAX,
    ensures
        forall|i: usize| #[trigger] edges_at_before(edges, id, n).contains(i) <==> (i < n
            && (edges[i as int].0 == id || edges[i as int].1 == id)),
        forall|a: int, b: int|
            0 <= a < b < edges_at_before(edges, id, n).len() ==> #[trigger] edges_at_before(
                edges,
                id,
                n,
            )[a] < #[trigger] edges_at_before(edges, id, n)[b],
        forall|a: int|
            0 <= a < edges_at_before(edges, id, n).len() ==> #[trigger] edges_at_before(
                edges,
                id,
                n,
            )[a] < n,
    decreases n,
{
    broadcast use vstd::seq_lib::group_seq_properties;

    if n > 0 {
        lemma_edges_at_before(edges, id, (n - 1) as nat);
        let rest = edges_at_before(edges, id, (n - 1) as nat);
        let e = edges[n - 1];
        if e.0 == id || e.1 == id {
            assert(edges_at_before(edges, id, n) == rest.push((n - 1) as usize));
        } else {
            assert(edges_at_before(edges, id, n) == rest);
        }
    }
}

/// The node identifiers of a graph are its node list, as stored.
pub proof fn lemma_graph_node_ids(g: &Graph)
    ensures
        g.spec_node_ids() == g.nodes@,
        g.spec_node_ids().len() == g.nodes@.len(),
{
}

/// The edge identifiers of a graph are the positions `0, 1, ...` of its
/// edge list, one for each edge.
pub proof fn lemma_graph_edge_ids(g: &Graph)
    ensures
        g.spec_edge_ids().len() == g.edges@.len(),
        forall|i: int| 0 <= i < g.edges@.len() ==> #[trigger] g.spec_edge_ids()[i] == i,
{
    assert(g.edges@.len() == g.edges.len());
}

/// Edge `i` of a graph has the endpoints of the `i`-th pair of its edge
/// list, in the stored order (parent first); past the end there is no edge.
/// So the first endpoint is a parent of the second, and `Topology` gives the
/// same two nodes.
pub proof fn lemma_graph_endpoints(g: &Graph, i: usize)
    ensures
        i < g.edges@.len() ==> g.spec_endpoints(i) == Some(g.edges@[i as int]),
        i >= g.edges@.len() ==> g.spec_endpoints(i) is None,
        g.spec_endpoints(i) matches Some((p, c)) ==> g.spec_children(p).contains(c)
            && g.spec_parents(c).contains(p),
        g.spec_endpoints(i) matches Some((p, c)) ==> g.spec_ends_of_edge(i) == seq![p, c],
        g.spec_endpoints(i) is None ==> g.spec_ends_of_edge(i).len() == 0,
{
    if i < g.edges@.len() {
        let (p, c) = g.edges@[i as int];
        assert(g.edges@.contains((p, c)));
        lemma_parents_mirror_children(g.edges@, p, c);
    }
}

/// The edges at a node, as both `EdgeTopology` and `Topology` give them, are
/// the positions of every edge with the node as an endpoint, loops included,
/// each once and in increasing order.
pub proof fn lemma_graph_edges_at_node(g: &Graph, id: u32)
    ensures
        g.spec_edges_of_node(id) == g.spec_node_edges(id),
        forall|i: usize| #[trigger] g.spec_node_edges(id).contains(i) <==> (i < g.edges@.len()
            && (g.edges@[i as int].0 == id || g.edges@[i as int].1 == id)),
        forall|a: int, b: int|
            0 <= a < b < g.spec_node_edges(id).len() ==> #[trigger] g.spec_node_edges(id)[a]
                < #[trigger] g.spec_node_edges(id)[b],
{
    assert(g.edges@.len() == g.edges.len());
    lemma_edges_at_before(g.edges@, id, g.edges@.len());
}

impl Graph {
    /// A graph with the given nodes and edges.
    pub fn new(nodes: &[u32], edges: &[(u32, u32)]) -> (g: Graph)
        ensures
            g.nodes@ == nodes@,
            g.edges@ == edges@,
    {
        Graph { nodes: copy_of(nodes), edges: copy_of(edges) }
    }
}

/// A vector that holds what `items` holds.
fn copy_of<T: Copy>(items: &[T]) -> (v: Vec<T>)
    ensures
        v@ == items@,
{
    let mut v: Vec<T> = Vec::new();
    let mut i: usize = 0;
    while i < items.len()
        invariant
            i <= items.len(),
            v@ == items@.take(i as int),
        decreases items.len() - i,
    {
        v.push(items[i]);
        i = i + 1;
        assert(v@ =~= items@.take(i as int));
    }
    assert(items@.take(items@.len() as int) =~= items@);
    v
}

/// The first (`first == true`) or second node of each edge whose other node
/// is `id`.
fn neighbours(edges: &Vec<(u32, u32)>, id: u32, first: bool) -> (ns: Vec<u32>)
    ensures
        first ==> ns@ == parents_in(edges@, id),
        !first ==> ns@ == children_in(edges@, id),
{
    let mut ns: Vec<u32> = Vec::new();
    let mut i: usize = 0;
    while i < edges.len()
        invariant
            i <= edges.len(),
            first ==> ns@ == parents_in(edges@.take(i as int), id),
            !first ==> ns@ == children_in(edges@.take(i as int), id),
        decreases edges.len() - i,
    {
        let e = edges[i];
        assert(edges@.take(i + 1).drop_last() =~= edges@.take(i as int));
        if first {
            if e.1 == id {
                ns.push(e.0);
            }
        } else {
            if e.0 == id {
                ns.push(e.1);
            }
        }
        i = i + 1;
    }
    assert(edges@.take(edges@.len() as int) =~= edges@);
    ns
}

/// The positions of the edges of which `id` is an endpoint.
fn positions_at(edges: &Vec<(u32, u32)>, id: u32) -> (ps: Vec<usize>)
    ensures
        ps@ == edges_at(edges@, id),
{
    let mut ps: Vec<usize> = Vec::new();
    let mut i: usize = 0;
    while i < edges.len()
        invariant
            i <= edges.len(),
            ps@ == edges_at_before(edges@, id, i as nat),
        decreases edges.len() - i,
    {
        let e = edges[i];
        if e.0 == id || e.1 == id {
            ps.push(i);
        }
        i = i + 1;
    }
    ps
}

/// The positions `0 .. n`.
fn positions_upto(n: usize) -> (ps: Vec<usize>)
    ensures
        ps@ == positions(n as nat),
{
    let mut ps: Vec<usize> = Vec::new();
    let mut i: usize = 0;
    while i < n
        invariant
            i <= n,
            ps@ == positions(i as nat),
        decreases n - i,
    {
        ps.push(i);
        i = i + 1;
        assert(ps@ =~= positions(i as nat));
    }
    ps
}

impl NodeTopology for Graph {
    type NodeId = u32;

    open spec fn spec_node_ids(&self) -> Seq<u32> {
        self.nodes@
    }

    proof fn lemma_node_ids_compare_by_value() {
        broadcast use vstd::laws_eq::group_laws_eq;

        assert(vstd::laws_eq::obeys_concrete_eq::<u32>());
    }

    fn node_ids(&self) -> (ids: Vec<u32>) {
        copy_of(self.nodes.as_slice())
    }
}

impl EdgeTopology for Graph {
    type EdgeId = usize;

    open spec fn spec_edge_ids(&self) -> Seq<usize> {
        positions(self.edges@.len())
    }

    open spec fn spec_node_edges(&self, id: u32) -> Seq<usize> {
        edges_at(self.edges@, id)
    }

    open spec fn spec_endpoints(&self, id: usize) -> Option<(u32, u32)> {
        edge_at(self.edges@, id)
    }

    fn edge_ids(&self) -> (ids: Vec<usize>) {
        positions_upto(self.edges.len())
    }

    fn node_edges(&self, id: u32) -> (ids: Vec<usize>) {
        positions_at(&self.edges, id)
    }

    fn endpoints(&self, id: usize) -> (ends: Option<(u32, u32)>) {
        if id < self.edges.len() {
            Some(self.edges[id])
        } else {
            None
        }
    }
}

impl DirectedTopology for Graph {
    open spec fn spec_parents(&self, id: u32) -> Seq<u32> {
        parents_in(self.edges@, id)
    }

    open spec fn spec_children(&self, id: u32) -> Seq<u32> {
        children_in(self.edges@, id)
    }

    fn parents(&self, id: u32) -> (ids: Vec<u32>) {
        neighbours(&self.edges, id, true)
    }

    fn children(&self, id: u32) -> (ids: Vec<u32>) {
        neighbours(&self.edges, id, false)
    }
}

impl RelationalTopology for Graph {

}

impl Topology for Graph {
    type NodeId = u32;
    type EdgeId = usize;

    open spec fn spec_edges_of_node(&self, id: u32) -> Seq<usize> {
        edges_at(self.edges@, id)
    }

    /// The two endpoints of a known edge, none for an unknown one.
    open spec fn spec_ends_of_edge(&self, id: usize) -> Seq<u32> {
        match edge_at(self.edges@, id) {
            Some((a, b)) => seq![a, b],
            None => Seq::empty(),
        }
    }

    fn node_edges(&self, id: u32) -> (ids: Vec<usize>) {
        positions_at(&self.edges, id)
    }

    fn endpoints(&self, id: usize) -> (ids: Vec<u32>) {
        let mut ids: Vec<u32> = Vec::new();
        if id < self.edges.len() {
            let (a, b) = self.edges[id];
            ids.push(a);
            ids.push(b);
        }
        ids
    }
}

} // verus!
