use vstd::prelude::*;

use super::RefNode;
use crate::graph::topology::directed::{kind_of, DirectedTopology, Kind, RelationalTopology};

verus! {

/// The nodes `ids` of `graph`, each with the graph.
fn nodes_of<'g, G: DirectedTopology>(ids: &Vec<G::NodeId>, graph: &'g G) -> (nodes: Vec<RefNode<'g, G>>)
    ensures
        nodes@.len() == ids@.len(),
        forall|i: int| 0 <= i < ids@.len() ==> (#[trigger] nodes@[i]).node_id() == ids@[i]
            && nodes@[i].topology() == graph,
{
    let mut nodes: Vec<RefNode<'g, G>> = Vec::new();
    let mut i: usize = 0;
    while i < ids.len()
        invariant
            i <= ids.len(),
            nodes@.len() == i,
            forall|j: int| 0 <= j < i ==> (#[trigger] nodes@[j]).node_id() == ids@[j]
                && nodes@[j].topology() == graph,
        decreases ids.len() - i,
    {
        nodes.push(RefNode::new(ids[i], graph));
        i = i + 1;
    }
    nodes
}

impl<'g, G: DirectedTopology> RefNode<'g, G> {
    /// The parents of the node, each with the graph, in the order of `parents`.
    pub fn parents(&self) -> (nodes: Vec<RefNode<'g, G>>)
        ensures
            nodes@.len() == self.topology().spec_parents(self.node_id()).len(),
            forall|i: int| 0 <= i < nodes@.len() ==> (#[trigger] nodes@[i]).node_id()
                == self.topology().spec_parents(self.node_id())[i] && nodes@[i].topology()
                == self.topology(),
    {
        nodes_of(&self.graph.parents(self.id), self.graph)
    }

    /// The children of the node, each with the graph, in the order of `children`.
    pub fn children(&self) -> (nodes: Vec<RefNode<'g, G>>)
        ensures
            nodes@.len() == self.topology().spec_children(self.node_id()).len(),
            forall|i: int| 0 <= i < nodes@.len() ==> (#[trigger] nodes@[i]).node_id()
                == self.topology().spec_children(self.node_id())[i] && nodes@[i].topology()
                == self.topology(),
    {
        nodes_of(&self.graph.children(self.id), self.graph)
    }

    /// Whether the node is a parent of itself.
    pub fn has_self_loop(&self) -> (b: bool)
        ensures
            b == self.topology().spec_parents(self.node_id()).contains(self.node_id()),
    {
        self.graph.has_self_loop(self.id)
    }
}

impl<'g, G: RelationalTopology> RefNode<'g, G> {
    /// The kind of the node.
    pub fn kind(&self) -> (k: Kind)
        ensures
            k == kind_of(self.topology(), self.node_id()),
    {
        self.graph.node_kind(self.id)
    }

    pub fn is_orphan(&self) -> (b: bool)
        ensures
            b == kind_of(self.topology(), self.node_id()).is_orphan_kind(),
    {
        self.graph.is_orphan(self.id)
    }

    pub fn is_root(&self) -> (b: bool)
        ensures
            b == kind_of(self.topology(), self.node_id()).is_root_kind(),
    {
        self.graph.is_root(self.id)
    }

    pub fn is_fork(&self) -> (b: bool)
        ensures
            b == kind_of(self.topology(), self.node_id()).is_fork_kind(),
    {
        self.graph.is_fork(self.id)
    }

    pub fn is_leaf(&self) -> (b: bool)
        ensures
            b == kind_of(self.topology(), self.node_id()).is_leaf_kind(),
    {
        self.graph.is_leaf(self.id)
    }

    pub fn is_relay(&self) -> (b: bool)
        ensures
            b == kind_of(self.topology(), self.node_id()).is_relay_kind(),
    {
        self.graph.is_relay(self.id)
    }

    pub fn is_junction(&self) -> (b: bool)
        ensures
            b == kind_of(self.topology(), self.node_id()).is_junction_kind(),
    {
        self.graph.is_junction(self.id)
    }

    pub fn is_join(&self) -> (b: bool)
        ensures
            b == kind_of(self.topology(), self.node_id()).is_join_kind(),
    {
        self.graph.is_join(self.id)
    }
}

} // verus!
