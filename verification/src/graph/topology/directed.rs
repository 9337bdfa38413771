use vstd::prelude::*;
use vstd::multiset::Multiset;
use vstd::std_specs::cmp::PartialOrdSpecImpl;
use vstd::std_specs::cmp::PartialEqSpec;
use core::cmp::Ordering;

use super::{degree_of, Degree, NodeTopology};

verus! {

broadcast use vstd::std_specs::vec::axiom_spec_into_iter;

/// The place of a node among its neighbours, from how many parents and how
/// many children it has (a node's own loops left out).
#[derive(Debug, Clone, Copy, PartialEq, Eq, Structural)]
pub enum Kind {
    Orphan,
    RelayRoot,
    ForkRoot,
    RelayLeaf,
    Relay,
    Fork,
    JoinLeaf,
    Join,
    Junction,
}

/// The kind of a node with `parents` parents and `children` children.
pub open spec fn kind_for(parents: Degree, children: Degree) -> Kind {
    match (parents, children) {
        (Degree::Zero, Degree::Zero) => Kind::Orphan,
        (Degree::Zero, Degree::One) => Kind::RelayRoot,
        (Degree::Zero, Degree::Many) => Kind::ForkRoot,
        (Degree::One, Degree::Zero) => Kind::RelayLeaf,
        (Degree::One, Degree::One) => Kind::Relay,
        (Degree::One, Degree::Many) => Kind::Fork,
        (Degree::Many, Degree::Zero) => Kind::JoinLeaf,
        (Degree::Many, Degree::One) => Kind::Join,
        (Degree::Many, Degree::Many) => Kind::Junction,
    }
}

impl Kind {
    /// How many parents a node of this kind has.
    pub open spec fn parents_degree(self) -> Degree {
        match self {
            Kind::Orphan | Kind::RelayRoot | Kind::ForkRoot => Degree::Zero,
            Kind::RelayLeaf | Kind::Relay | Kind::Fork => Degree::One,
            Kind::JoinLeaf | Kind::Join | Kind::Junction => Degree::Many,
        }
    }

    /// How many children a node of this kind has.
    pub open spec fn children_degree(self) -> Degree {
        match self {
            Kind::Orphan | Kind::RelayLeaf | Kind::JoinLeaf => Degree::Zero,
            Kind::RelayRoot | Kind::Relay | Kind::Join => Degree::One,
            Kind::ForkRoot | Kind::Fork | Kind::Junction => Degree::Many,
        }
    }

    pub open spec fn is_orphan_kind(self) -> bool {
        self == Kind::Orphan
    }

    pub open spec fn is_root_kind(self) -> bool {
        self == Kind::RelayRoot || self == Kind::ForkRoot
    }

    pub open spec fn is_leaf_kind(self) -> bool {
        self == Kind::RelayLeaf || self == Kind::JoinLeaf
    }

    pub open spec fn is_relay_kind(self) -> bool {
        self == Kind::RelayLeaf || self == Kind::RelayRoot || self == Kind::Relay
    }

    pub open spec fn is_fork_kind(self) -> bool {
        self == Kind::Fork || self == Kind::ForkRoot
    }

    pub open spec fn is_join_kind(self) -> bool {
        self == Kind::Join || self == Kind::JoinLeaf
    }

    pub open spec fn is_junction_kind(self) -> bool {
        self == Kind::Junction
    }

    /// The position of the kind in the order in which its variants are declared.
    pub open spec fn rank(self) -> nat {
        match self {
            Kind::Orphan => 0,
            Kind::RelayRoot => 1,
            Kind::ForkRoot => 2,
            Kind::RelayLeaf => 3,
            Kind::Relay => 4,
            Kind::Fork => 5,
            Kind::JoinLeaf => 6,
            Kind::Join => 7,
            Kind::Junction => 8,
        }
    }

    fn rank_exec(&self) -> (r: u8)
        ensures
            r == self.rank(),
    {
        match self {
            Kind::Orphan => 0,
            Kind::RelayRoot => 1,
            Kind::ForkRoot => 2,
            Kind::RelayLeaf => 3,
            Kind::Relay => 4,
            Kind::Fork => 5,
            Kind::JoinLeaf => 6,
            Kind::Join => 7,
            Kind::Junction => 8,
        }
    }

    /// The kind of a node with the given numbers of parents and children.
    pub fn from_degrees(parents: Degree, children: Degree) -> (k: Kind)
        ensures
            k == kind_for(parents, children),
            k.parents_degree() == parents,
            k.children_degree() == children,
    {
        match (parents, children) {
            (Degree::Zero, Degree::Zero) => Kind::Orphan,
            (Degree::Zero, Degree::One) => Kind::RelayRoot,
            (Degree::Zero, Degree::Many) => Kind::ForkRoot,
            (Degree::One, Degree::Zero) => Kind::RelayLeaf,
            (Degree::One, Degree::One) => Kind::Relay,
            (Degree::One, Degree::Many) => Kind::Fork,
            (Degree::Many, Degree::Zero) => Kind::JoinLeaf,
            (Degree::Many, Degree::One) => Kind::Join,
            (Degree::Many, Degree::Many) => Kind::Junction,
        }
    }
}

/// Each pair of degrees makes a kind, and each kind comes from exactly one
/// pair: a kind and its two degrees determine each other.
pub proof fn lemma_kind_for_is_bijective(parents: Degree, children: Degree, k: Kind)
    ensures
        kind_for(parents, children).parents_degree() == parents,
        kind_for(parents, children).children_degree() == children,
        kind_for(k.parents_degree(), k.children_degree()) == k,
        (kind_for(parents, children) == k) <==> (k.parents_degree() == parents
            && k.children_degree() == children),
{
}

/// The place of a node among its neighbours, from how many parents and how
/// many children it has; the same nine places as `Kind`.
#[derive(Debug, Clone, Copy, PartialEq, Eq, Structural)]
pub enum LocalKind {
    Orphan,
    RelayRoot,
    ForkRoot,
    RelayLeaf,
    Relay,
    Fork,
    JoinLeaf,
    Join,
    Junction,
}

impl LocalKind {
    /// How many parents a node of this kind has.
    pub open spec fn parents_degree(self) -> Degree {
        match self {
            LocalKind::Orphan | LocalKind::RelayRoot | LocalKind::ForkRoot => Degree::Zero,
            LocalKind::RelayLeaf | LocalKind::Relay | LocalKind::Fork => Degree::One,
            LocalKind::JoinLeaf | LocalKind::Join | LocalKind::Junction => Degree::Many,
        }
    }

    /// How many children a node of this kind has.
    pub open spec fn children_degree(self) -> Degree {
        match self {
            LocalKind::Orphan | LocalKind::RelayLeaf | LocalKind::JoinLeaf => Degree::Zero,
            LocalKind::RelayRoot | LocalKind::Relay | LocalKind::Join => Degree::One,
            LocalKind::ForkRoot | LocalKind::Fork | LocalKind::Junction => Degree::Many,
        }
    }

    /// The kind of a node with the given numbers of parents and children.
    pub fn from_degrees(parents: Degree, children: Degree) -> (k: LocalKind)
        ensures
            k.parents_degree() == parents,
            k.children_degree() == children,
    {
        match (parents, children) {
            (Degree::Zero, Degree::Zero) => LocalKind::Orphan,
            (Degree::Zero, Degree::One) => LocalKind::RelayRoot,
            (Degree::Zero, Degree::Many) => LocalKind::ForkRoot,
            (Degree::One, Degree::Zero) => LocalKind::RelayLeaf,
            (Degree::One, Degree::One) => LocalKind::Relay,
            (Degree::One, Degree::Many) => LocalKind::Fork,
            (Degree::Many, Degree::Zero) => LocalKind::JoinLeaf,
            (Degree::Many, Degree::One) => LocalKind::Join,
            (Degree::Many, Degree::Many) => LocalKind::Junction,
        }
    }
}

/// A local kind is fixed by its two degrees: no two variants share them.
pub proof fn lemma_local_kind_determined_by_degrees(a: LocalKind, b: LocalKind)
    requires
        a.parents_degree() == b.parents_degree(),
        a.children_degree() == b.children_degree(),
    ensures
        a == b,
{
}

impl PartialOrd for Kind {
    fn partial_cmp(&self, other: &Kind) -> (r: Option<Ordering>) {
        let a = self.rank_exec();
        let b = other.rank_exec();
        if a < b {
            Some(Ordering::Less)
        } else if a == b {
            Some(Ordering::Equal)
        } else {
            Some(Ordering::Greater)
        }
    }
}

impl PartialOrdSpecImpl for Kind {
    open spec fn obeys_partial_cmp_spec() -> bool {
        true
    }

    open spec fn partial_cmp_spec(&self, other: &Kind) -> Option<Ordering> {
        if self.rank() < other.rank() {
            Some(Ordering::Less)
        } else if self.rank() == other.rank() {
            Some(Ordering::Equal)
        } else {
            Some(Ordering::Greater)
        }
    }
}

/// The test for an identifier other than `id`.
pub open spec fn differs_from<N>(id: N) -> spec_fn(N) -> bool {
    |x: N| x != id
}

/// The identifiers in `ids` other than `id`, in their order.
pub open spec fn others<N>(ids: Seq<N>, id: N) -> Seq<N> {
    ids.filter(differs_from(id))
}

/// What `others` keeps: every entry of `ids` that is not `id`, each as often
/// as it occurs there, and no entry `id`; so it has as many entries as `ids`
/// has entries other than `id`.
pub proof fn lemma_others_keeps_every_other_entry<N>(ids: Seq<N>, id: N)
    ensures
        others(ids, id).to_multiset().count(id) == 0,
        forall|x: N| x != id ==> #[trigger] others(ids, id).to_multiset().count(x)
            == ids.to_multiset().count(x),
        others(ids, id).len() + ids.to_multiset().count(id) == ids.len(),
        forall|x: N| #[trigger] others(ids, id).contains(x) <==> (ids.contains(x) && x != id),
    decreases ids.len(),
{
    broadcast use {vstd::seq_lib::group_to_multiset_ensures, vstd::multiset::group_multiset_axioms};

    if ids.len() == 0 {
        reveal(Seq::filter);
        assert(others(ids, id) =~= Seq::<N>::empty());
        assert(ids.to_multiset() =~= Multiset::empty());
        assert(others(ids, id).to_multiset() =~= Multiset::empty());
    } else {
        let init = ids.drop_last();
        let x = ids.last();
        lemma_others_keeps_every_other_entry(init, id);
        assert(ids =~= init.push(x));
        init.lemma_filter_push(x, differs_from(id));
        assert(ids.to_multiset() =~= init.to_multiset().insert(x));
        if x != id {
            assert(others(ids, id) == others(init, id).push(x));
            assert(others(ids, id).to_multiset() =~= others(init, id).to_multiset().insert(x));
        } else {
            assert(others(ids, id) == others(init, id));
        }
        assert forall|y: N| #[trigger] others(ids, id).contains(y) <==> (ids.contains(y) && y != id) by {
            if x != id {
                assert(others(ids, id).to_multiset().count(y) > 0 <==> others(ids, id).contains(y));
            }
            assert(ids.contains(y) <==> (init.contains(y) || y == x));
            if x != id {
                assert(others(init, id).push(x).contains(y) <==> (others(init, id).contains(y) || y == x));
            }
        }
    }
}

/// The degrees of a node's kind count every parent entry and every child
/// entry other than the node itself, repeats included: `n` such entries make
/// the degree `degree_of(n)`.
pub proof fn lemma_kind_counts_other_entries<G: DirectedTopology + ?Sized>(g: &G, id: G::NodeId)
    ensures
        kind_of(g, id).parents_degree() == degree_of(
            (g.spec_parents(id).len() - g.spec_parents(id).to_multiset().count(id)) as nat,
        ),
        kind_of(g, id).children_degree() == degree_of(
            (g.spec_children(id).len() - g.spec_children(id).to_multiset().count(id)) as nat,
        ),
{
    lemma_others_keeps_every_other_entry(g.spec_parents(id), id);
    lemma_others_keeps_every_other_entry(g.spec_children(id), id);
    lemma_kind_for_is_bijective(
        degree_of(others(g.spec_parents(id), id).len()),
        degree_of(others(g.spec_children(id), id).len()),
        kind_of(g, id),
    );
}

/// The identifiers in `ids` other than `id`.
pub(crate) fn without<N: Copy + Eq>(ids: &Vec<N>, id: N) -> (rest: Vec<N>)
    requires
        vstd::laws_eq::obeys_concrete_eq::<N>(),
    ensures
        rest@ == others(ids@, id),
{
    proof {
        reveal(vstd::laws_eq::obeys_concrete_eq);
    }
    let mut rest: Vec<N> = Vec::new();
    let mut i: usize = 0;
    while i < ids.len()
        invariant
            i <= ids.len(),
            vstd::laws_eq::obeys_concrete_eq::<N>(),
            N::obeys_eq_spec(),
            forall|x: N, y: N| x.eq_spec(&y) <==> x == y,
            rest@ == others(ids@.take(i as int), id),
        decreases ids.len() - i,
    {
        let x = ids[i];
        proof {
            assert(ids@.take(i + 1) =~= ids@.take(i as int).push(x));
            ids@.take(i as int).lemma_filter_push(x, differs_from(id));
        }
        if x != id {
            rest.push(x);
        }
        i = i + 1;
    }
    proof {
        assert(ids@.take(ids@.len() as int) =~= ids@);
    }
    rest
}

/// Nodes joined by edges that lead from a parent to a child.
pub trait DirectedTopology: NodeTopology {
    /// The parents of a node, in the order `parents` gives them.
    spec fn spec_parents(&self, id: Self::NodeId) -> Seq<Self::NodeId>;

    /// The children of a node, in the order `children` gives them.
    spec fn spec_children(&self, id: Self::NodeId) -> Seq<Self::NodeId>;

    fn parents(&self, id: Self::NodeId) -> (ids: Vec<Self::NodeId>)
        ensures
            ids@ == self.spec_parents(id),
    ;

    fn children(&self, id: Self::NodeId) -> (ids: Vec<Self::NodeId>)
        ensures
            ids@ == self.spec_children(id),
    ;

    /// The number of parents of a node.
    fn in_degrees(&self, id: Self::NodeId) -> (n: usize)
        ensures
            n == self.spec_parents(id).len(),
    {
        self.parents(id).len()
    }

    /// The number of children of a node.
    fn out_degrees(&self, id: Self::NodeId) -> (n: usize)
        ensures
            n == self.spec_children(id).len(),
    {
        self.children(id).len()
    }

    /// Whether a node is a parent of itself.
    fn has_self_loop(&self, id: Self::NodeId) -> (b: bool)
        ensures
            b == self.spec_parents(id).contains(id),
    {
        proof {
            Self::lemma_node_ids_compare_by_value();
            reveal(vstd::laws_eq::obeys_concrete_eq);
        }
        let parents = self.parents(id);
        let mut i: usize = 0;
        while i < parents.len()
            invariant
                i <= parents.len(),
                parents@ == self.spec_parents(id),
                Self::NodeId::obeys_eq_spec(),
                forall|x: Self::NodeId, y: Self::NodeId| x.eq_spec(&y) <==> x == y,
                forall|j: int| 0 <= j < i ==> parents@[j] != id,
            decreases parents.len() - i,
        {
            if parents[i] == id {
                assert(parents@[i as int] == id);
                return true;
            }
            i = i + 1;
        }
        false
    }
}

/// The kind of node `id` in `g`: from its parents and children other than
/// itself, so that a loop at the node does not count.
pub open spec fn kind_of<G: DirectedTopology + ?Sized>(g: &G, id: G::NodeId) -> Kind {
    kind_for(
        degree_of(others(g.spec_parents(id), id).len()),
        degree_of(others(g.spec_children(id), id).len()),
    )
}

/// What each kind says of the numbers of other parents `p` and other
/// children `c` of a node: an orphan has neither, a root only children, a
/// leaf only parents, a relay one neighbour on a side and at most one on the
/// other, a fork many children and at most one parent, a join many parents
/// and at most one child, a junction many of both.
pub proof fn lemma_kind_by_neighbours<G: DirectedTopology + ?Sized>(g: &G, id: G::NodeId)
    ensures
        ({
            let k = kind_of(g, id);
            let p = others(g.spec_parents(id), id).len();
            let c = others(g.spec_children(id), id).len();
            &&& k.is_orphan_kind() <==> (p == 0 && c == 0)
            &&& k.is_root_kind() <==> (p == 0 && c > 0)
            &&& k.is_leaf_kind() <==> (p > 0 && c == 0)
            &&& k.is_relay_kind() <==> (p <= 1 && c <= 1 && p + c >= 1)
            &&& k.is_fork_kind() <==> (p <= 1 && c >= 2)
            &&& k.is_join_kind() <==> (p >= 2 && c <= 1)
            &&& k.is_junction_kind() <==> (p >= 2 && c >= 2)
        }),
{
}

/// The identifiers in `ids`, in order, that `keep` accepts.
fn select<N: Copy, F: Fn(N) -> bool>(
    ids: &Vec<N>,
    keep: F,
    Ghost(pred): Ghost<spec_fn(N) -> bool>,
) -> (kept: Vec<N>)
    requires
        forall|x: N| call_requires(keep, (x,)),
        forall|x: N, b: bool| call_ensures(keep, (x,), b) ==> b == pred(x),
    ensures
        kept@ == ids@.filter(pred),
{
    let mut kept: Vec<N> = Vec::new();
    let mut i: usize = 0;
    while i < ids.len()
        invariant
            i <= ids.len(),
            forall|x: N| call_requires(keep, (x,)),
            forall|x: N, b: bool| call_ensures(keep, (x,), b) ==> b == pred(x),
            kept@ == ids@.take(i as int).filter(pred),
        decreases ids.len() - i,
    {
        let id = ids[i];
        let b = keep(id);
        proof {
            assert(ids@.take(i + 1) =~= ids@.take(i as int).push(id));
            ids@.take(i as int).lemma_filter_push(id, pred);
        }
        if b {
            kept.push(id);
        }
        i = i + 1;
    }
    proof {
        assert(ids@.take(ids@.len() as int) =~= ids@);
    }
    kept
}

/// A directed topology whose nodes are told apart by how they relate to
/// their neighbours.
pub trait RelationalTopology: DirectedTopology {
    /// The kind of a node, from its parents and children other than itself.
    fn node_kind(&self, id: Self::NodeId) -> (k: Kind)
        ensures
            k == kind_of(self, id),
    {
        proof {
            Self::lemma_node_ids_compare_by_value();
        }
        let parents = without(&self.parents(id), id);
        let children = without(&self.children(id), id);
        Kind::from_degrees(
            Degree::from_iter(parents.into_iter()),
            Degree::from_iter(children.into_iter()),
        )
    }

    fn is_orphan(&self, id: Self::NodeId) -> (b: bool)
        ensures
            b == kind_of(self, id).is_orphan_kind(),
    {
        self.node_kind(id) == Kind::Orphan
    }

    fn is_root(&self, id: Self::NodeId) -> (b: bool)
        ensures
            b == kind_of(self, id).is_root_kind(),
    {
        match self.node_kind(id) {
            Kind::RelayRoot | Kind::ForkRoot => true,
            _ => false,
        }
    }

    fn is_leaf(&self, id: Self::NodeId) -> (b: bool)
        ensures
            b == kind_of(self, id).is_leaf_kind(),
    {
        match self.node_kind(id) {
            Kind::RelayLeaf | Kind::JoinLeaf => true,
            _ => false,
        }
    }

    fn is_relay(&self, id: Self::NodeId) -> (b: bool)
        ensures
            b == kind_of(self, id).is_relay_kind(),
    {
        match self.node_kind(id) {
            Kind::RelayLeaf | Kind::RelayRoot | Kind::Relay => true,
            _ => false,
        }
    }

    fn is_fork(&self, id: Self::NodeId) -> (b: bool)
        ensures
            b == kind_of(self, id).is_fork_kind(),
    {
        match self.node_kind(id) {
            Kind::Fork | Kind::ForkRoot => true,
            _ => false,
        }
    }

    fn is_join(&self, id: Self::NodeId) -> (b: bool)
        ensures
            b == kind_of(self, id).is_join_kind(),
    {
        match self.node_kind(id) {
            Kind::Join | Kind::JoinLeaf => true,
            _ => false,
        }
    }

    fn is_junction(&self, id: Self::NodeId) -> (b: bool)
        ensures
            b == kind_of(self, id).is_junction_kind(),
    {
        self.node_kind(id) == Kind::Junction
    }

    /// The orphans among the nodes, in the order of `node_ids`.
    fn orphans(&self) -> (ids: Vec<Self::NodeId>)
        ensures
            ids@ == self.spec_node_ids().filter(|id: Self::NodeId| kind_of(self, id).is_orphan_kind()),
    {
        let keep = |id: Self::NodeId| -> (b: bool)
            ensures
                b == kind_of(self, id).is_orphan_kind(),
            { self.is_orphan(id) };
        select(
            &self.node_ids(),
            keep,
            Ghost(|id: Self::NodeId| kind_of(self, id).is_orphan_kind()),
        )
    }

    /// The roots among the nodes, in the order of `node_ids`.
    fn roots(&self) -> (ids: Vec<Self::NodeId>)
        ensures
            ids@ == self.spec_node_ids().filter(|id: Self::NodeId| kind_of(self, id).is_root_kind()),
    {
        let keep = |id: Self::NodeId| -> (b: bool)
            ensures
                b == kind_of(self, id).is_root_kind(),
            { self.is_root(id) };
        select(&self.node_ids(), keep, Ghost(|id: Self::NodeId| kind_of(self, id).is_root_kind()))
    }

    /// The leaves among the nodes, in the order of `node_ids`.
    fn leaves(&self) -> (ids: Vec<Self::NodeId>)
        ensures
            ids@ == self.spec_node_ids().filter(|id: Self::NodeId| kind_of(self, id).is_leaf_kind()),
    {
        let keep = |id: Self::NodeId| -> (b: bool)
            ensures
                b == kind_of(self, id).is_leaf_kind(),
            { self.is_leaf(id) };
        select(&self.node_ids(), keep, Ghost(|id: Self::NodeId| kind_of(self, id).is_leaf_kind()))
    }

    /// The relays among the nodes, in the order of `node_ids`.
    fn relays(&self) -> (ids: Vec<Self::NodeId>)
        ensures
            ids@ == self.spec_node_ids().filter(|id: Self::NodeId| kind_of(self, id).is_relay_kind()),
    {
        let keep = |id: Self::NodeId| -> (b: bool)
            ensures
                b == kind_of(self, id).is_relay_kind(),
            { self.is_relay(id) };
        select(&self.node_ids(), keep, Ghost(|id: Self::NodeId| kind_of(self, id).is_relay_kind()))
    }

    /// The forks among the nodes, in the order of `node_ids`.
    fn forks(&self) -> (ids: Vec<Self::NodeId>)
        ensures
            ids@ == self.spec_node_ids().filter(|id: Self::NodeId| kind_of(self, id).is_fork_kind()),
    {
        let keep = |id: Self::NodeId| -> (b: bool)
            ensures
                b == kind_of(self, id).is_fork_kind(),
            { self.is_fork(id) };
        select(&self.node_ids(), keep, Ghost(|id: Self::NodeId| kind_of(self, id).is_fork_kind()))
    }

    /// The joins among the nodes, in the order of `node_ids`.
    fn joins(&self) -> (ids: Vec<Self::NodeId>)
        ensures
            ids@ == self.spec_node_ids().filter(|id: Self::NodeId| kind_of(self, id).is_join_kind()),
    {
        let keep = |id: Self::NodeId| -> (b: bool)
            ensures
                b == kind_of(self, id).is_join_kind(),
            { self.is_join(id) };
        select(&self.node_ids(), keep, Ghost(|id: Self::NodeId| kind_of(self, id).is_join_kind()))
    }

    /// The junctions among the nodes, in the order of `node_ids`.
    fn junctions(&self) -> (ids: Vec<Self::NodeId>)
        ensures
            ids@ == self.spec_node_ids().filter(|id: Self::NodeId| kind_of(self, id).is_junction_kind()),
    {
        let keep = |id: Self::NodeId| -> (b: bool)
            ensures
                b == kind_of(self, id).is_junction_kind(),
            { self.is_junction(id) };
        select(&self.node_ids(), keep, Ghost(|id: Self::NodeId| kind_of(self, id).is_junction_kind()))
    }
}

} // verus!
