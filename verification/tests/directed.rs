use graph_topology::graph::edge_list::Graph;
use graph_topology::graph::topology::directed::{
    DirectedTopology, Kind, LocalKind, RelationalTopology,
};
use graph_topology::graph::topology::Degree;

fn sorted(ids: Vec<u32>) -> Vec<u32> {
    let mut v = ids;
    v.sort_unstable();
    v
}

#[test]
fn from_degrees_maps_each_combination_to_a_kind() {
    assert_eq!(Kind::from_degrees(Degree::Zero, Degree::Zero), Kind::Orphan);
    assert_eq!(Kind::from_degrees(Degree::Zero, Degree::One), Kind::RelayRoot);
    assert_eq!(Kind::from_degrees(Degree::Zero, Degree::Many), Kind::ForkRoot);
    assert_eq!(Kind::from_degrees(Degree::One, Degree::Zero), Kind::RelayLeaf);
    assert_eq!(Kind::from_degrees(Degree::One, Degree::One), Kind::Relay);
    assert_eq!(Kind::from_degrees(Degree::One, Degree::Many), Kind::Fork);
    assert_eq!(Kind::from_degrees(Degree::Many, Degree::Zero), Kind::JoinLeaf);
    assert_eq!(Kind::from_degrees(Degree::Many, Degree::One), Kind::Join);
    assert_eq!(Kind::from_degrees(Degree::Many, Degree::Many), Kind::Junction);
}

#[test]
fn in_degrees_counts_parents() {
    // 1 -> 3, 2 -> 3
    let g = Graph::new(&[1, 2, 3], &[(1, 3), (2, 3)]);
    assert_eq!(g.in_degrees(3), 2);
    assert_eq!(g.in_degrees(1), 0);
}

#[test]
fn out_degrees_counts_children() {
    // 1 -> 2, 1 -> 3
    let g = Graph::new(&[1, 2, 3], &[(1, 2), (1, 3)]);
    assert_eq!(g.out_degrees(1), 2);
    assert_eq!(g.out_degrees(2), 0);
}

#[test]
fn has_self_loop_is_true_when_node_points_to_itself() {
    let g = Graph::new(&[1], &[(1, 1)]);
    assert!(g.has_self_loop(1));
}

#[test]
fn has_self_loop_is_false_when_node_has_no_self_edge() {
    let g = Graph::new(&[1, 2], &[(1, 2)]);
    assert!(!g.has_self_loop(1));
    assert!(!g.has_self_loop(2));
}

#[test]
fn orphan_has_no_parents_and_no_children() {
    let g = Graph::new(&[1], &[]);
    assert_eq!(g.node_kind(1), Kind::Orphan);
}

#[test]
fn relay_root_has_no_parents_and_one_child() {
    // 1 -> 2
    let g = Graph::new(&[1, 2], &[(1, 2)]);
    assert_eq!(g.node_kind(1), Kind::RelayRoot);
}

#[test]
fn fork_root_has_no_parents_and_many_children() {
    // 1 -> 2, 1 -> 3
    let g = Graph::new(&[1, 2, 3], &[(1, 2), (1, 3)]);
    assert_eq!(g.node_kind(1), Kind::ForkRoot);
}

#[test]
fn relay_leaf_has_one_parent_and_no_children() {
    // 1 -> 2
    let g = Graph::new(&[1, 2], &[(1, 2)]);
    assert_eq!(g.node_kind(2), Kind::RelayLeaf);
}

#[test]
fn relay_has_one_parent_and_one_child() {
    // 1 -> 2 -> 3
    let g = Graph::new(&[1, 2, 3], &[(1, 2), (2, 3)]);
    assert_eq!(g.node_kind(2), Kind::Relay);
}

#[test]
fn fork_has_one_parent_and_many_children() {
    // 1 -> 2; 2 -> 3, 2 -> 4
    let g = Graph::new(&[1, 2, 3, 4], &[(1, 2), (2, 3), (2, 4)]);
    assert_eq!(g.node_kind(2), Kind::Fork);
}

#[test]
fn join_leaf_has_many_parents_and_no_children() {
    // 1 -> 3, 2 -> 3
    let g = Graph::new(&[1, 2, 3], &[(1, 3), (2, 3)]);
    assert_eq!(g.node_kind(3), Kind::JoinLeaf);
}

#[test]
fn join_has_many_parents_and_one_child() {
    // 1 -> 3, 2 -> 3, 3 -> 4
    let g = Graph::new(&[1, 2, 3, 4], &[(1, 3), (2, 3), (3, 4)]);
    assert_eq!(g.node_kind(3), Kind::Join);
}

#[test]
fn junction_has_many_parents_and_many_children() {
    // 1 -> 3, 2 -> 3; 3 -> 4, 3 -> 5
    let g = Graph::new(&[1, 2, 3, 4, 5], &[(1, 3), (2, 3), (3, 4), (3, 5)]);
    assert_eq!(g.node_kind(3), Kind::Junction);
}

#[test]
fn self_loops_do_not_count_toward_node_kind() {
    // A self-loop alone must keep the node an Orphan.
    let g = Graph::new(&[1], &[(1, 1)]);
    assert_eq!(g.node_kind(1), Kind::Orphan);
}

#[test]
fn orphans_yields_only_disconnected_nodes() {
    // 1 is orphan; 2 -> 3 has no orphans.
    let g = Graph::new(&[1, 2, 3], &[(2, 3)]);
    assert_eq!(sorted(g.orphans()), vec![1]);
}

#[test]
fn roots_yields_relay_roots_and_fork_roots() {
    // 1 -> 2 (1 = RR); 3 -> 4, 3 -> 5 (3 = FR)
    let g = Graph::new(&[1, 2, 3, 4, 5], &[(1, 2), (3, 4), (3, 5)]);
    assert_eq!(sorted(g.roots()), vec![1, 3]);
}

#[test]
fn leaves_yields_relay_leaves_and_join_leaves() {
    // 1 -> 2 (2 = RL); 3 -> 5, 4 -> 5 (5 = JL)
    let g = Graph::new(&[1, 2, 3, 4, 5], &[(1, 2), (3, 5), (4, 5)]);
    assert_eq!(sorted(g.leaves()), vec![2, 5]);
}

#[test]
fn relays_yields_relay_relay_roots_and_relay_leaves() {
    // 1 -> 2 -> 3: 1 = RR, 2 = Relay, 3 = RL; all three are relays.
    let g = Graph::new(&[1, 2, 3], &[(1, 2), (2, 3)]);
    assert_eq!(sorted(g.relays()), vec![1, 2, 3]);
}

#[test]
fn forks_yields_fork_and_fork_root() {
    // 1 -> 2, 1 -> 3 (1 = FR); 4 -> 5, 5 -> 6, 5 -> 7 (5 = Fork)
    let g = Graph::new(
        &[1, 2, 3, 4, 5, 6, 7],
        &[(1, 2), (1, 3), (4, 5), (5, 6), (5, 7)],
    );
    assert_eq!(sorted(g.forks()), vec![1, 5]);
}

#[test]
fn joins_yields_join_and_join_leaf() {
    // 1 -> 3, 2 -> 3 (3 = JL); 4 -> 6, 5 -> 6, 6 -> 7 (6 = Join)
    let g = Graph::new(
        &[1, 2, 3, 4, 5, 6, 7],
        &[(1, 3), (2, 3), (4, 6), (5, 6), (6, 7)],
    );
    assert_eq!(sorted(g.joins()), vec![3, 6]);
}

#[test]
fn junctions_yields_only_junctions() {
    // 1 -> 3, 2 -> 3, 3 -> 4, 3 -> 5 (3 = Junction)
    let g = Graph::new(&[1, 2, 3, 4, 5], &[(1, 3), (2, 3), (3, 4), (3, 5)]);
    assert_eq!(sorted(g.junctions()), vec![3]);
}

// Further cases.

#[test]
fn parents_and_children_follow_edge_order() {
    let g = Graph::new(&[1, 2, 3], &[(3, 2), (1, 2), (2, 2), (2, 1)]);
    assert_eq!(g.parents(2), vec![3, 1, 2]);
    assert_eq!(g.children(2), vec![2, 1]);
    assert_eq!(g.parents(9), Vec::<u32>::new());
}

#[test]
fn parents_mirror_children() {
    let g = Graph::new(&[1, 2, 3, 4], &[(1, 2), (2, 3), (3, 1), (4, 4), (1, 3)]);
    for p in 1..=4_u32 {
        for c in 1..=4_u32 {
            let edge = g.edges.contains(&(p, c));
            assert_eq!(g.parents(c).contains(&p), edge);
            assert_eq!(g.children(p).contains(&c), edge);
        }
    }
}

#[test]
fn self_loop_keeps_every_kind() {
    let base = Graph::new(&[1, 2, 3], &[(1, 2), (2, 3), (1, 3)]);
    for id in 1..=3_u32 {
        let mut looped = Graph::new(&[1, 2, 3], &[(1, 2), (2, 3), (1, 3)]);
        looped.edges.push((id, id));
        for x in 1..=3_u32 {
            assert_eq!(looped.node_kind(x), base.node_kind(x));
        }
        assert!(looped.has_self_loop(id));
    }
}

#[test]
fn kind_predicates_follow_the_kind() {
    // 1 -> 3, 2 -> 3, 3 -> 4, 3 -> 5, 4 -> 6, 6 isolated apart from 4; 7 alone
    let g = Graph::new(&[1, 2, 3, 4, 5, 6, 7], &[(1, 3), (2, 3), (3, 4), (3, 5), (4, 6)]);
    assert!(g.is_root(1) && g.is_relay(1) && !g.is_fork(1));
    assert!(g.is_junction(3) && !g.is_join(3) && !g.is_fork(3));
    assert!(g.is_relay(4) && !g.is_root(4) && !g.is_leaf(4));
    assert!(g.is_leaf(5) && g.is_relay(5));
    assert!(g.is_leaf(6));
    assert!(g.is_orphan(7) && !g.is_relay(7));
    assert_eq!(g.orphans(), vec![7]);
    assert_eq!(g.roots(), vec![1, 2]);
    assert_eq!(g.leaves(), vec![5, 6]);
    assert_eq!(g.relays(), vec![1, 2, 4, 5, 6]);
    assert_eq!(g.junctions(), vec![3]);
    assert_eq!(g.forks(), Vec::<u32>::new());
    assert_eq!(g.joins(), Vec::<u32>::new());
}

#[test]
fn lists_keep_node_order_and_repeats() {
    let g = Graph::new(&[5, 1, 5], &[]);
    assert_eq!(g.orphans(), vec![5, 1, 5]);
}

#[test]
fn local_kind_from_degrees_matches_kind() {
    assert_eq!(LocalKind::from_degrees(Degree::Zero, Degree::Zero), LocalKind::Orphan);
    assert_eq!(LocalKind::from_degrees(Degree::Zero, Degree::Many), LocalKind::ForkRoot);
    assert_eq!(LocalKind::from_degrees(Degree::One, Degree::One), LocalKind::Relay);
    assert_eq!(LocalKind::from_degrees(Degree::Many, Degree::One), LocalKind::Join);
    assert_eq!(LocalKind::from_degrees(Degree::Many, Degree::Many), LocalKind::Junction);
}

#[test]
fn kinds_are_ordered_as_declared() {
    assert!(Kind::Orphan < Kind::RelayRoot);
    assert!(Kind::Join < Kind::Junction);
    assert!(!(Kind::Fork < Kind::Relay));
}
