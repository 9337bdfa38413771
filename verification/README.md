# graph_topology

Local structure of graphs, verified with Verus.

A node's *kind* comes from how many parents and how many children it has
(none, one or many, a node's own loops left out): orphan, relay root, fork
root, relay leaf, relay, fork, join leaf, join or junction.

- `graph::topology` — `NodeTopology`, `EdgeTopology` (with `opposite`) and
  `Degree`.
- `graph::topology::directed` — `DirectedTopology`, `RelationalTopology`
  (the kind of a node, the kind predicates, the lists of nodes by kind),
  `Kind` and `LocalKind`.
- `graph::references` — `RefNode`, a node together with its topology.
- `graph::edge_list` — `Graph`, a topology kept as a node list and an edge
  list, which implements every trait.
- `visitors` — `NodeIdVisitor`, which calls one hook per node by its kind.
  `visit_plan` lists the (node, hook) calls, and the default `visit` states
  that it makes exactly those calls, in order; each default hook states the
  hooks it passes the node on to.

An implementor of `NodeTopology` proves `lemma_node_ids_compare_by_value`:
that `==` on its identifiers is equality (for the integer types, vstd's
`group_laws_eq` gives it). The self-loop tests and the filters rest on it.

Lists of nodes and edges are handed out as `Vec`s. The contracts state each
result over spec functions of the traits (`spec_node_ids`, `spec_parents`,
...), and the laws stand as proof functions beside the code they are about.
