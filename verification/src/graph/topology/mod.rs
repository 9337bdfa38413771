use vstd::prelude::*;
use vstd::std_specs::cmp::PartialOrdSpecImpl;
use vstd::std_specs::convert::FromSpecImpl;
use core::cmp::Ordering;
use vstd::std_specs::iter::IteratorSpec;

pub mod directed;

verus! {

/// A set of nodes, each known by an identifier.
pub trait NodeTopology {
    type NodeId: Copy + Eq;

    /// The identifiers of the nodes, in the order `node_ids` gives them.
    spec fn spec_node_ids(&self) -> Seq<Self::NodeId>;

    /// Identifiers are compared by value: `==` on them is equality.
    proof fn lemma_node_ids_compare_by_value()
        ensures
            vstd::laws_eq::obeys_concrete_eq::<Self::NodeId>(),
    ;

    fn node_ids(&self) -> (ids: Vec<Self::NodeId>)
        ensures
            ids@ == self.spec_node_ids(),
    ;

    /// The number of identifiers that `node_ids` gives.
    fn node_count(&self) -> (n: usize)
        ensures
            n == self.spec_node_ids().len(),
    {
        self.node_ids().len()
    }
}

/// What `opposite` answers for an edge with the given endpoints, seen from `node`:
/// the other endpoint, the node itself for a loop, or nothing where the node
/// is no endpoint or the edge is unknown.
pub open spec fn opposite_end<N>(ends: Option<(N, N)>, node: N) -> Option<N> {
    match ends {
        Some((a, b)) => if a == node {
            Some(b)
        } else if b == node {
            Some(a)
        } else {
            None
        },
        None => None,
    }
}

/// Nodes joined by edges, each edge known by an identifier and joining two
/// endpoints.
pub trait EdgeTopology: NodeTopology {
    type EdgeId;

    /// The identifiers of the edges, in the order `edge_ids` gives them.
    spec fn spec_edge_ids(&self) -> Seq<Self::EdgeId>;

    /// The edges at a node, in the order `node_edges` gives them.
    spec fn spec_node_edges(&self, id: Self::NodeId) -> Seq<Self::EdgeId>;

    /// The two endpoints of an edge, or `None` for an unknown edge.
    spec fn spec_endpoints(&self, id: Self::EdgeId) -> Option<(Self::NodeId, Self::NodeId)>;

    fn edge_ids(&self) -> (ids: Vec<Self::EdgeId>)
        ensures
            ids@ == self.spec_edge_ids(),
    ;

    fn node_edges(&self, id: Self::NodeId) -> (ids: Vec<Self::EdgeId>)
        ensures
            ids@ == self.spec_node_edges(id),
    ;

    fn endpoints(&self, id: Self::EdgeId) -> (ends: Option<(Self::NodeId, Self::NodeId)>)
        ensures
            ends == self.spec_endpoints(id),
    ;

    /// The number of identifiers that `edge_ids` gives.
    fn edge_count(&self) -> (n: usize)
        ensures
            n == self.spec_edge_ids().len(),
    {
        self.edge_ids().len()
    }

    /// The endpoint of edge `eid` across from node `nid`.
    fn opposite(&self, eid: Self::EdgeId, nid: Self::NodeId) -> (other: Option<Self::NodeId>)
        ensures
            other == opposite_end(self.spec_endpoints(eid), nid),
    {
        proof {
            Self::lemma_node_ids_compare_by_value();
            reveal(vstd::laws_eq::obeys_concrete_eq);
        }
        match self.endpoints(eid) {
            Some((a, b)) => if a == nid {
                Some(b)
            } else if b == nid {
                Some(a)
            } else {
                None
            },
            None => None,
        }
    }
}

/// Seen from either endpoint of an edge, `opposite` leads to the other one
/// and back: what is across from `a` has `a` across from it.
pub proof fn lemma_opposite_involution<G: EdgeTopology>(
    g: &G,
    eid: G::EdgeId,
    a: G::NodeId,
    b: G::NodeId,
)
    requires
        opposite_end(g.spec_endpoints(eid), a) == Some(b),
    ensures
        opposite_end(g.spec_endpoints(eid), b) == Some(a),
        g.spec_endpoints(eid) == Some((a, b)) || g.spec_endpoints(eid) == Some((b, a)),
{
}

/// How many neighbours a node has on one side, as far as its kind cares:
/// none, exactly one, or more than one.
#[derive(Debug, Clone, Copy, PartialEq, Eq, Structural)]
pub enum Degree {
    Zero,
    One,
    Many,
}

/// The degree that stands for a count of `n` neighbours.
pub open spec fn degree_of(n: nat) -> Degree {
    if n == 0 {
        Degree::Zero
    } else if n == 1 {
        Degree::One
    } else {
        Degree::Many
    }
}

/// More neighbours never make a smaller degree: `degree_of` keeps the order
/// of counts in the order `Zero < One < Many`.
pub proof fn lemma_degree_of_monotone(a: nat, b: nat)
    requires
        a <= b,
    ensures
        degree_of(a).rank() <= degree_of(b).rank(),
{
}

impl Degree {
    /// The position of the degree in the order `Zero < One < Many`.
    pub open spec fn rank(self) -> nat {
        match self {
            Degree::Zero => 0,
            Degree::One => 1,
            Degree::Many => 2,
        }
    }

    fn rank_exec(&self) -> (r: u8)
        ensures
            r == self.rank(),
    {
        match self {
            Degree::Zero => 0,
            Degree::One => 1,
            Degree::Many => 2,
        }
    }
}

impl Degree {
    /// The degree of the items an iterator yields, counting no further than
    /// two: at most two items are pulled from it. The result is specified for
    /// iterators that follow vstd's iterator laws (`obeys_prophetic_iter_laws`),
    /// such as those of `Vec`; for others the contract says nothing.
    pub fn from_iter<T, I: Iterator<Item = T>>(iter: I) -> (d: Degree)
        ensures
            iter.obeys_prophetic_iter_laws() ==> d == degree_of(iter.remaining().len()),
    {
        let mut iter = iter;
        let first = iter.next();
        match first {
            None => Degree::Zero,
            Some(_) => {
                let second = iter.next();
                match second {
                    None => Degree::One,
                    Some(_) => Degree::Many,
                }
            }
        }
    }
}

impl From<usize> for Degree {
    fn from(value: usize) -> (d: Degree)
        ensures
            d == degree_of(value as nat),
    {
        if value == 0 {
            Degree::Zero
        } else if value == 1 {
            Degree::One
        } else {
            Degree::Many
        }
    }
}

impl FromSpecImpl<usize> for Degree {
    open spec fn obeys_from_spec() -> bool {
        true
    }

    open spec fn from_spec(v: usize) -> Degree {
        if v == 0 {
            Degree::Zero
        } else if v == 1 {
            Degree::One
        } else {
            Degree::Many
        }
    }
}

impl PartialOrd for Degree {
    fn partial_cmp(&self, other: &Degree) -> (r: Option<Ordering>) {
        let a = self.rank_exec();
        let b = other.rank_exec();
        if a < b {
            Some(Ordering::Less)
        } else if a == b {
            Some(Ordering::Equal)
        } else {
            Some(Ordering::Greater)
        }
    }
}

impl PartialOrdSpecImpl for Degree {
    open spec fn obeys_partial_cmp_spec() -> bool {
        true
    }

    open spec fn partial_cmp_spec(&self, other: &Degree) -> Option<Ordering> {
        if self.rank() < other.rank() {
            Some(Ordering::Less)
        } else if self.rank() == other.rank() {
            Some(Ordering::Equal)
        } else {
            Some(Ordering::Greater)
        }
    }
}

} // verus!
