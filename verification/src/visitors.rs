use vstd::prelude::*;

use crate::graph::topology::directed::{kind_of, DirectedTopology, Kind, RelationalTopology};
use crate::graph::topology::NodeTopology;

verus! {

/// The hooks of `NodeIdVisitor` that `visit` calls directly.
#[derive(Debug, Clone, Copy, PartialEq, Eq, Structural)]
pub enum Hook {
    SelfLoop,
    Orphan,
    RelayRoot,
    ForkRoot,
    RelayLeaf,
    InnerRelay,
    InnerFork,
    JoinLeaf,
    Join,
    InnerJunction,
}

/// The hook that `visit` calls for a node of kind `k`.
pub open spec fn hook_for(k: Kind) -> Hook {
    match k {
        Kind::Orphan => Hook::Orphan,
        Kind::RelayRoot => Hook::RelayRoot,
        Kind::ForkRoot => Hook::ForkRoot,
        Kind::RelayLeaf => Hook::RelayLeaf,
        Kind::Relay => Hook::InnerRelay,
        Kind::Fork => Hook::InnerFork,
        Kind::JoinLeaf => Hook::JoinLeaf,
        Kind::Join => Hook::Join,
        Kind::Junction => Hook::InnerJunction,
    }
}

/// The hook `visit` picks for a node names the node's kind: roots go to the
/// root hooks, leaves to the leaf hooks, relays to the relay hooks, forks to
/// the fork hooks, joins to the join hooks, orphans and junctions to their
/// own; no kind gets the self-loop hook, and no two kinds share a hook.
pub proof fn lemma_hook_names_the_kind(k: Kind, l: Kind)
    ensures
        hook_for(k) != Hook::SelfLoop,
        hook_for(k) == hook_for(l) ==> k == l,
        (hook_for(k) == Hook::Orphan) <==> k.is_orphan_kind(),
        (hook_for(k) == Hook::RelayRoot || hook_for(k) == Hook::ForkRoot) <==> k.is_root_kind(),
        (hook_for(k) == Hook::RelayLeaf || hook_for(k) == Hook::JoinLeaf) <==> k.is_leaf_kind(),
        (hook_for(k) == Hook::RelayRoot || hook_for(k) == Hook::RelayLeaf || hook_for(k)
            == Hook::InnerRelay) <==> k.is_relay_kind(),
        (hook_for(k) == Hook::ForkRoot || hook_for(k) == Hook::InnerFork) <==> k.is_fork_kind(),
        (hook_for(k) == Hook::JoinLeaf || hook_for(k) == Hook::Join) <==> k.is_join_kind(),
        (hook_for(k) == Hook::InnerJunction) <==> k.is_junction_kind(),
{
}

impl Hook {
    /// The hook that `visit` calls for a node of kind `k`.
    pub fn for_kind(k: Kind) -> (h: Hook)
        ensures
            h == hook_for(k),
    {
        match k {
            Kind::Orphan => Hook::Orphan,
            Kind::RelayRoot => Hook::RelayRoot,
            Kind::ForkRoot => Hook::ForkRoot,
            Kind::RelayLeaf => Hook::RelayLeaf,
            Kind::Relay => Hook::InnerRelay,
            Kind::Fork => Hook::InnerFork,
            Kind::JoinLeaf => Hook::JoinLeaf,
            Kind::Join => Hook::Join,
            Kind::Junction => Hook::InnerJunction,
        }
    }
}

/// The hook calls that `visit` makes for node `id` of `g`: the self-loop
/// hook where the node is its own parent, then the hook of its kind.
pub open spec fn node_hooks<G: DirectedTopology + ?Sized>(g: &G, id: G::NodeId) -> Seq<
    (G::NodeId, Hook),
> {
    let own = if g.spec_parents(id).contains(id) {
        seq![(id, Hook::SelfLoop)]
    } else {
        Seq::empty()
    };
    own.push((id, hook_for(kind_of(g, id))))
}

/// The hook calls that `visit` makes for the nodes `ids` of `g`, node by
/// node in their order.
pub open spec fn plan_of<G: DirectedTopology + ?Sized>(g: &G, ids: Seq<G::NodeId>) -> Seq<
    (G::NodeId, Hook),
>
    decreases ids.len(),
{
    if ids.len() == 0 {
        Seq::empty()
    } else {
        plan_of(g, ids.drop_last()) + node_hooks(g, ids.last())
    }
}

/// The hook calls that `visit` makes on `graph`, each as the node and the
/// hook, in the order they are made.
pub fn visit_plan<G: RelationalTopology>(graph: &G) -> (plan: Vec<(G::NodeId, Hook)>)
    ensures
        plan@ == plan_of(graph, graph.spec_node_ids()),
{
    let ids = graph.node_ids();
    let mut plan: Vec<(G::NodeId, Hook)> = Vec::new();
    let mut i: usize = 0;
    while i < ids.len()
        invariant
            i <= ids.len(),
            ids@ == graph.spec_node_ids(),
            plan@ == plan_of(graph, ids@.take(i as int)),
        decreases ids.len() - i,
    {
        let id = ids[i];
        let ghost before = plan@;
        assert(ids@.take(i + 1).drop_last() =~= ids@.take(i as int));
        let looped = graph.has_self_loop(id);
        if looped {
            plan.push((id, Hook::SelfLoop));
        }
        let kind = graph.node_kind(id);
        plan.push((id, Hook::for_kind(kind)));
        assert(plan@ =~= before + node_hooks(graph, id));
        i = i + 1;
    }
    assert(ids@.take(ids@.len() as int) =~= ids@);
    plan
}

/// Walks the nodes of a topology and calls, for each node, the hook that
/// fits its kind. Every hook does nothing unless overridden; the hooks for
/// the kinds that have a more general name (a relay root is a relay and a
/// root) pass the node on to those.
pub trait NodeIdVisitor<G: RelationalTopology>: Sized {
    /// Makes the hook calls of `visit_plan(graph)`, in order: for each node
    /// of `node_ids`, `visit_self_loop` if the node is its own parent, then
    /// the hook of the node's kind. The visitor passes from one call to the
    /// next: `states[j]` before call `j`, `states[j + 1]` after it.
    #[verifier::rlimit(80)]
    fn visit(&mut self, graph: &G)
        default_ensures
            ({
                let plan = plan_of(graph, graph.spec_node_ids());
                exists|states: Seq<Self>| {
                    &&& states.len() == plan.len() + 1
                    &&& states[0] == *old(self)
                    &&& states[plan.len() as int] == *final(self)
                    &&& forall|j: int| #![trigger states[j]] 0 <= j < plan.len() ==> (exists|call: &mut Self| {
                        &&& mut_ref_current(call) == states[j]
                        &&& mut_ref_future(call) == states[j + 1]
                        &&& match plan[j].1 {
                            Hook::SelfLoop => call_ensures(Self::visit_self_loop, (call, plan[j].0), ()),
                            Hook::Orphan => call_ensures(Self::visit_orphan, (call, plan[j].0), ()),
                            Hook::RelayRoot => call_ensures(Self::visit_relay_root, (call, plan[j].0), ()),
                            Hook::ForkRoot => call_ensures(Self::visit_fork_root, (call, plan[j].0), ()),
                            Hook::RelayLeaf => call_ensures(Self::visit_relay_leaf, (call, plan[j].0), ()),
                            Hook::InnerRelay => call_ensures(Self::visit_inner_relay, (call, plan[j].0), ()),
                            Hook::InnerFork => call_ensures(Self::visit_inner_fork, (call, plan[j].0), ()),
                            Hook::JoinLeaf => call_ensures(Self::visit_join_leaf, (call, plan[j].0), ()),
                            Hook::Join => call_ensures(Self::visit_join, (call, plan[j].0), ()),
                            Hook::InnerJunction => call_ensures(Self::visit_inner_junction, (call, plan[j].0), ()),
                        }
                    })
                }
            }),
    {
        let plan = visit_plan(graph);
        let ghost mut states: Seq<Self> = seq![*self];
        let mut i: usize = 0;
        while i < plan.len()
            invariant
                i <= plan.len(),
                plan@ == plan_of(graph, graph.spec_node_ids()),
                states.len() == i + 1,
                states[0] == *old(self),
                states[i as int] == *self,
                forall|j: int| #![trigger states[j]] 0 <= j < i ==> (exists|call: &mut Self| {
                    &&& mut_ref_current(call) == states[j]
                    &&& mut_ref_future(call) == states[j + 1]
                    &&& match plan@[j].1 {
                        Hook::SelfLoop => call_ensures(Self::visit_self_loop, (call, plan@[j].0), ()),
                        Hook::Orphan => call_ensures(Self::visit_orphan, (call, plan@[j].0), ()),
                        Hook::RelayRoot => call_ensures(Self::visit_relay_root, (call, plan@[j].0), ()),
                        Hook::ForkRoot => call_ensures(Self::visit_fork_root, (call, plan@[j].0), ()),
                        Hook::RelayLeaf => call_ensures(Self::visit_relay_leaf, (call, plan@[j].0), ()),
                        Hook::InnerRelay => call_ensures(Self::visit_inner_relay, (call, plan@[j].0), ()),
                        Hook::InnerFork => call_ensures(Self::visit_inner_fork, (call, plan@[j].0), ()),
                        Hook::JoinLeaf => call_ensures(Self::visit_join_leaf, (call, plan@[j].0), ()),
                        Hook::Join => call_ensures(Self::visit_join, (call, plan@[j].0), ()),
                        Hook::InnerJunction => call_ensures(Self::visit_inner_junction, (call, plan@[j].0), ()),
                    }
                }),
            decreases plan.len() - i,
        {
            let (id, hook) = plan[i];
            assert(plan@[i as int] == (id, hook));
            match hook {
                Hook::SelfLoop => self.visit_self_loop(id),
                Hook::Orphan => self.visit_orphan(id),
                Hook::RelayRoot => self.visit_relay_root(id),
                Hook::ForkRoot => self.visit_fork_root(id),
                Hook::RelayLeaf => self.visit_relay_leaf(id),
                Hook::InnerRelay => self.visit_inner_relay(id),
                Hook::InnerFork => self.visit_inner_fork(id),
                Hook::JoinLeaf => self.visit_join_leaf(id),
                Hook::Join => self.visit_join(id),
                Hook::InnerJunction => self.visit_inner_junction(id),
            }
            proof {
                let prev = states;
                states = states.push(*self);
                assert(forall|j: int| #![trigger states[j]] 0 <= j <= i ==> states[j] == prev[j]);
            }
            i = i + 1;
        }
    }

    /// Called for every node through the hooks below; does nothing unless overridden.
    #[allow(unused_variables)]
    fn visit_node(&mut self, id: G::NodeId)
        default_ensures
            *final(self) == *old(self),
    {
    }

    /// Passes an orphan on to `visit_node`.
    fn visit_orphan(&mut self, id: G::NodeId)
        default_ensures
            exists|call: &mut Self| {
                &&& mut_ref_current(call) == *old(self)
                &&& call_ensures(Self::visit_node, (call, id), ())
                &&& mut_ref_future(call) == *final(self)
            },
    {
        self.visit_node(id)
    }

    /// Passes a root on to `visit_node`.
    fn visit_root(&mut self, id: G::NodeId)
        default_ensures
            exists|call: &mut Self| {
                &&& mut_ref_current(call) == *old(self)
                &&& call_ensures(Self::visit_node, (call, id), ())
                &&& mut_ref_future(call) == *final(self)
            },
    {
        self.visit_node(id)
    }

    /// A relay root is a relay and a root: calls `visit_relay`, then `visit_root`.
    fn visit_relay_root(&mut self, id: G::NodeId)
        default_ensures
            exists|first: &mut Self, second: &mut Self| {
                &&& mut_ref_current(first) == *old(self)
                &&& call_ensures(Self::visit_relay, (first, id), ())
                &&& mut_ref_current(second) == mut_ref_future(first)
                &&& call_ensures(Self::visit_root, (second, id), ())
                &&& mut_ref_future(second) == *final(self)
            },
    {
        self.visit_relay(id);
        self.visit_root(id);
    }

    /// A fork root is a fork and a root: calls `visit_fork`, then `visit_root`.
    fn visit_fork_root(&mut self, id: G::NodeId)
        default_ensures
            exists|first: &mut Self, second: &mut Self| {
                &&& mut_ref_current(first) == *old(self)
                &&& call_ensures(Self::visit_fork, (first, id), ())
                &&& mut_ref_current(second) == mut_ref_future(first)
                &&& call_ensures(Self::visit_root, (second, id), ())
                &&& mut_ref_future(second) == *final(self)
            },
    {
        self.visit_fork(id);
        self.visit_root(id);
    }

    /// Passes a leaf on to `visit_node`.
    fn visit_leaf(&mut self, id: G::NodeId)
        default_ensures
            exists|call: &mut Self| {
                &&& mut_ref_current(call) == *old(self)
                &&& call_ensures(Self::visit_node, (call, id), ())
                &&& mut_ref_future(call) == *final(self)
            },
    {
        self.visit_node(id)
    }

    /// A relay leaf is a relay and a leaf: calls `visit_relay`, then `visit_leaf`.
    fn visit_relay_leaf(&mut self, id: G::NodeId)
        default_ensures
            exists|first: &mut Self, second: &mut Self| {
                &&& mut_ref_current(first) == *old(self)
                &&& call_ensures(Self::visit_relay, (first, id), ())
                &&& mut_ref_current(second) == mut_ref_future(first)
                &&& call_ensures(Self::visit_leaf, (second, id), ())
                &&& mut_ref_future(second) == *final(self)
            },
    {
        self.visit_relay(id);
        self.visit_leaf(id);
    }

    /// A join leaf is a join and a leaf: calls `visit_join`, then `visit_leaf`.
    fn visit_join_leaf(&mut self, id: G::NodeId)
        default_ensures
            exists|first: &mut Self, second: &mut Self| {
                &&& mut_ref_current(first) == *old(self)
                &&& call_ensures(Self::visit_join, (first, id), ())
                &&& mut_ref_current(second) == mut_ref_future(first)
                &&& call_ensures(Self::visit_leaf, (second, id), ())
                &&& mut_ref_future(second) == *final(self)
            },
    {
        self.visit_join(id);
        self.visit_leaf(id);
    }

    /// Passes a node with parents and children on to `visit_node`.
    fn visit_inner(&mut self, id: G::NodeId)
        default_ensures
            exists|call: &mut Self| {
                &&& mut_ref_current(call) == *old(self)
                &&& call_ensures(Self::visit_node, (call, id), ())
                &&& mut_ref_future(call) == *final(self)
            },
    {
        self.visit_node(id)
    }

    /// An inner join: calls `visit_join`, then `visit_inner`.
    fn visit_inner_join(&mut self, id: G::NodeId)
        default_ensures
            exists|first: &mut Self, second: &mut Self| {
                &&& mut_ref_current(first) == *old(self)
                &&& call_ensures(Self::visit_join, (first, id), ())
                &&& mut_ref_current(second) == mut_ref_future(first)
                &&& call_ensures(Self::visit_inner, (second, id), ())
                &&& mut_ref_future(second) == *final(self)
            },
    {
        self.visit_join(id);
        self.visit_inner(id);
    }

    /// An inner fork: calls `visit_fork`, then `visit_inner`.
    fn visit_inner_fork(&mut self, id: G::NodeId)
        default_ensures
            exists|first: &mut Self, second: &mut Self| {
                &&& mut_ref_current(first) == *old(self)
                &&& call_ensures(Self::visit_fork, (first, id), ())
                &&& mut_ref_current(second) == mut_ref_future(first)
                &&& call_ensures(Self::visit_inner, (second, id), ())
                &&& mut_ref_future(second) == *final(self)
            },
    {
        self.visit_fork(id);
        self.visit_inner(id);
    }

    /// An inner relay: calls `visit_relay`, then `visit_inner`.
    fn visit_inner_relay(&mut self, id: G::NodeId)
        default_ensures
            exists|first: &mut Self, second: &mut Self| {
                &&& mut_ref_current(first) == *old(self)
                &&& call_ensures(Self::visit_relay, (first, id), ())
                &&& mut_ref_current(second) == mut_ref_future(first)
                &&& call_ensures(Self::visit_inner, (second, id), ())
                &&& mut_ref_future(second) == *final(self)
            },
    {
        self.visit_relay(id);
        self.visit_inner(id);
    }

    /// A junction: calls `visit_inner`.
    fn visit_inner_junction(&mut self, id: G::NodeId)
        default_ensures
            exists|call: &mut Self| {
                &&& mut_ref_current(call) == *old(self)
                &&& call_ensures(Self::visit_inner, (call, id), ())
                &&& mut_ref_future(call) == *final(self)
            },
    {
        self.visit_inner(id)
    }

    /// Called for relays; does nothing unless overridden.
    #[allow(unused_variables)]
    fn visit_relay(&mut self, id: G::NodeId)
        default_ensures
            *final(self) == *old(self),
    {
    }

    /// Called for forks; does nothing unless overridden.
    #[allow(unused_variables)]
    fn visit_fork(&mut self, id: G::NodeId)
        default_ensures
            *final(self) == *old(self),
    {
    }

    /// Called for joins; does nothing unless overridden.
    #[allow(unused_variables)]
    fn visit_join(&mut self, id: G::NodeId)
        default_ensures
            *final(self) == *old(self),
    {
    }

    /// Called for a node that is its own parent; does nothing unless overridden.
    #[allow(unused_variables)]
    fn visit_self_loop(&mut self, id: G::NodeId)
        default_ensures
            *final(self) == *old(self),
    {
    }
}

} // verus!
