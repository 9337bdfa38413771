use vstd::prelude::*;

pub mod edge_list;
pub mod references;
pub mod topology;

verus! {

/// Nodes and edges seen from both sides: the edges at each node, and the
/// nodes at the ends of each edge.
pub trait Topology {
    type NodeId;
    type EdgeId;

    /// The edges at a node, in the order `node_edges` gives them.
    spec fn spec_edges_of_node(&self, id: Self::NodeId) -> Seq<Self::EdgeId>;

    /// The nodes at the ends of an edge, in the order `endpoints` gives them.
    spec fn spec_ends_of_edge(&self, id: Self::EdgeId) -> Seq<Self::NodeId>;

    fn node_edges(&self, id: Self::NodeId) -> (ids: Vec<Self::EdgeId>)
        ensures
            ids@ == self.spec_edges_of_node(id),
    ;

    fn endpoints(&self, id: Self::EdgeId) -> (ids: Vec<Self::NodeId>)
        ensures
            ids@ == self.spec_ends_of_edge(id),
    ;
}

} // verus!
