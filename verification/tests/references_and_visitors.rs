use graph_topology::graph::edge_list::Graph;
use graph_topology::graph::references::RefNode;
use graph_topology::graph::topology::directed::Kind;
use graph_topology::graph::Topology;
use graph_topology::visitors::{visit_plan, Hook, NodeIdVisitor};

#[test]
fn ref_node_reports_its_id_edges_and_neighbours() {
    let g = Graph::new(&[1, 2, 3], &[(1, 2), (2, 3), (2, 2)]);
    let n = RefNode::new(2, &g);
    assert_eq!(n.id(), 2);
    assert_eq!(n.edges(), vec![0, 1, 2]);
    let parents: Vec<u32> = n.parents().iter().map(|p| p.id()).collect();
    let children: Vec<u32> = n.children().iter().map(|c| c.id()).collect();
    assert_eq!(parents, vec![1, 2]);
    assert_eq!(children, vec![3, 2]);
    assert!(n.has_self_loop());
    assert!(!RefNode::new(1, &g).has_self_loop());
}

#[test]
fn ref_node_kinds_match_the_graph() {
    // 1 -> 3, 2 -> 3, 3 -> 4
    let g = Graph::new(&[1, 2, 3, 4, 5], &[(1, 3), (2, 3), (3, 4)]);
    let three = RefNode::new(3, &g);
    assert_eq!(three.kind(), Kind::Join);
    assert!(three.is_join());
    assert!(!three.is_junction());
    assert!(!three.is_fork());
    let one = RefNode::new(1, &g);
    assert!(one.is_root() && one.is_relay() && !one.is_leaf());
    let four = RefNode::new(4, &g);
    assert!(four.is_leaf() && four.is_relay());
    assert!(RefNode::new(5, &g).is_orphan());
    // A parent's children include the node it was reached from.
    let back: Vec<u32> = one.children()[0].parents().iter().map(|p| p.id()).collect();
    assert_eq!(back, vec![1, 2]);
}

#[test]
fn topology_gives_edges_of_nodes_and_ends_of_edges() {
    let g = Graph::new(&[1, 2, 3], &[(1, 2), (3, 1)]);
    assert_eq!(Topology::node_edges(&g, 1), vec![0, 1]);
    assert_eq!(Topology::node_edges(&g, 2), vec![0]);
    assert_eq!(Topology::endpoints(&g, 1), vec![3, 1]);
    assert_eq!(Topology::endpoints(&g, 5), Vec::<u32>::new());
}

#[derive(Default)]
struct Recorder {
    calls: Vec<(&'static str, u32)>,
}

impl NodeIdVisitor<Graph> for Recorder {
    fn visit_node(&mut self, id: u32) {
        self.calls.push(("node", id));
    }
    fn visit_root(&mut self, id: u32) {
        self.calls.push(("root", id));
        self.visit_node(id);
    }
    fn visit_relay(&mut self, id: u32) {
        self.calls.push(("relay", id));
    }
    fn visit_fork(&mut self, id: u32) {
        self.calls.push(("fork", id));
    }
    fn visit_join(&mut self, id: u32) {
        self.calls.push(("join", id));
    }
    fn visit_inner(&mut self, id: u32) {
        self.calls.push(("inner", id));
        self.visit_node(id);
    }
    fn visit_self_loop(&mut self, id: u32) {
        self.calls.push(("self_loop", id));
    }
}

#[test]
fn visit_calls_the_hooks_of_each_kind_in_node_order() {
    // 1 -> 2 -> 3, 3 -> 3; 4 alone
    let g = Graph::new(&[1, 2, 3, 4], &[(1, 2), (2, 3), (3, 3)]);
    let mut r = Recorder::default();
    r.visit(&g);
    assert_eq!(
        r.calls,
        vec![
            ("relay", 1),
            ("root", 1),
            ("node", 1),
            ("relay", 2),
            ("inner", 2),
            ("node", 2),
            ("self_loop", 3),
            ("relay", 3),
            ("node", 3),
            ("node", 4),
        ]
    );
}

#[test]
fn visit_sends_joins_to_visit_join_and_junctions_to_inner() {
    // 1 -> 3, 2 -> 3, 3 -> 4 (3 = Join); 5 -> 7, 6 -> 7, 7 -> 8, 7 -> 9 (7 = Junction)
    let g = Graph::new(
        &[3, 7],
        &[(1, 3), (2, 3), (3, 4), (5, 7), (6, 7), (7, 8), (7, 9)],
    );
    let mut r = Recorder::default();
    r.visit(&g);
    assert_eq!(r.calls, vec![("join", 3), ("inner", 7), ("node", 7)]);
}

#[derive(Debug, PartialEq)]
enum Ev {
    Node(u32),
    Relay(u32),
    Fork(u32),
    Join(u32),
    SelfLoop(u32),
}

#[derive(Default)]
struct Rec {
    log: Vec<Ev>,
}

impl NodeIdVisitor<Graph> for Rec {
    fn visit_node(&mut self, id: u32) {
        self.log.push(Ev::Node(id));
    }
    fn visit_relay(&mut self, id: u32) {
        self.log.push(Ev::Relay(id));
    }
    fn visit_fork(&mut self, id: u32) {
        self.log.push(Ev::Fork(id));
    }
    fn visit_join(&mut self, id: u32) {
        self.log.push(Ev::Join(id));
    }
    fn visit_self_loop(&mut self, id: u32) {
        self.log.push(Ev::SelfLoop(id));
    }
}

#[test]
fn visit_lone_self_loop_node_is_an_orphan_after_its_loop() {
    let g = Graph::new(&[1], &[(1, 1)]);
    let mut v = Rec::default();
    v.visit(&g);
    assert_eq!(v.log, vec![Ev::SelfLoop(1), Ev::Node(1)]);
}

#[test]
fn visit_junction_gets_neither_fork_nor_join() {
    let g = Graph::new(&[1, 2, 3, 4, 5], &[(1, 3), (2, 3), (3, 4), (3, 5)]);
    let mut v = Rec::default();
    v.visit(&g);
    assert_eq!(
        v.log,
        vec![
            Ev::Relay(1),
            Ev::Node(1),
            Ev::Relay(2),
            Ev::Node(2),
            Ev::Node(3),
            Ev::Relay(4),
            Ev::Node(4),
            Ev::Relay(5),
            Ev::Node(5),
        ]
    );
}

#[test]
fn visit_join_node_gets_visit_join_alone_and_forks_their_hooks() {
    // 1 -> 3, 2 -> 3, 3 -> 4 (3 = Join); 4 -> 5, 4 -> 6 (4 = Fork)
    let g = Graph::new(&[3, 4], &[(1, 3), (2, 3), (3, 4), (4, 5), (4, 6)]);
    let mut v = Rec::default();
    v.visit(&g);
    assert_eq!(v.log, vec![Ev::Join(3), Ev::Fork(4), Ev::Node(4)]);
}

#[test]
fn visit_plan_lists_node_and_hook_in_call_order() {
    // 1 -> 2, 2 -> 2, 2 -> 3; 4 alone
    let g = Graph::new(&[1, 2, 3, 4], &[(1, 2), (2, 2), (2, 3)]);
    assert_eq!(
        visit_plan(&g),
        vec![
            (1, Hook::RelayRoot),
            (2, Hook::SelfLoop),
            (2, Hook::InnerRelay),
            (3, Hook::RelayLeaf),
            (4, Hook::Orphan),
        ]
    );
    assert_eq!(Hook::for_kind(Kind::Join), Hook::Join);
    assert_eq!(Hook::for_kind(Kind::Junction), Hook::InnerJunction);
    assert_eq!(Hook::for_kind(Kind::Fork), Hook::InnerFork);
}
