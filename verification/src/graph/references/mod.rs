use vstd::prelude::*;

use super::topology::{EdgeTopology, NodeTopology};

pub mod directed;

verus! {

/// A node of a topology, together with the topology it belongs to.
pub struct RefNode<'g, G: NodeTopology> {
    id: G::NodeId,
    graph: &'g G,
}

impl<'g, G: NodeTopology> RefNode<'g, G> {
    /// The identifier of the node.
    pub closed spec fn node_id(&self) -> G::NodeId {
        self.id
    }

    /// The topology the node belongs to.
    pub closed spec fn topology(&self) -> &'g G {
        self.graph
    }

    /// The node `id` of `graph`.
    pub fn new(id: G::NodeId, graph: &'g G) -> (node: Self)
        ensures
            node.node_id() == id,
            node.topology() == graph,
    {
        RefNode { id, graph }
    }

    pub fn id(&self) -> (id: G::NodeId)
        ensures
            id == self.node_id(),
    {
        self.id
    }
}

impl<'g, G: EdgeTopology> RefNode<'g, G> {
    /// The edges at the node.
    pub fn edges(&self) -> (ids: Vec<G::EdgeId>)
        ensures
            ids@ == self.topology().spec_node_edges(self.node_id()),
    {
        self.graph.node_edges(self.id)
    }
}

} // verus!
