//! Local structure of graphs: how many neighbours a node has on each side,
//! and what that makes of it (an orphan, a root, a leaf, a relay, a fork,
//! a join or a junction).

pub mod graph;
pub mod visitors;
