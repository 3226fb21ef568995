//! Cycle detection and topological sorting of plain edge lists, computed by
//! petgraph.

use vstd::prelude::*;
use petgraph::graph::{DiGraph, NodeIndex};

verus! {

/// Some edge goes from `a` to `b`.
pub open spec fn is_edge(edges: Seq<(usize, usize)>, a: int, b: int) -> bool {
    exists|k: int| 0 <= k < edges.len() && edges[k].0 == a && edges[k].1 == b
}

/// `p` follows edges from its first to its last entry.
pub open spec fn is_path(edges: Seq<(usize, usize)>, p: Seq<int>) -> bool {
    p.len() >= 1 && forall|i: int| 0 <= i < p.len() - 1 ==> #[trigger] is_edge(edges, p[i], p[i + 1])
}

/// Some path of at least one edge returns to where it started.
pub open spec fn has_cycle(edges: Seq<(usize, usize)>) -> bool {
    exists|p: Seq<int>| #[trigger] is_path(edges, p) && p.len() >= 2 && p[0] == p[p.len() - 1]
}

/// `order` lists each of the `n` nodes once, and every edge goes from an
/// earlier entry to a later one.
pub open spec fn is_topological_order(n: nat, edges: Seq<(usize, usize)>, order: Seq<usize>) -> bool {
    &&& order.len() == n
    &&& forall|i: int| 0 <= i < n ==> #[trigger] order[i] < n
    &&& forall|i: int, j: int| 0 <= i < j < n ==> order[i] != order[j]
    &&& forall|k: int|
        0 <= k < edges.len() ==> exists|i: int, j: int|
            0 <= i < j < n && order[i] == #[trigger] edges[k].0 && order[j] == edges[k].1
}

/// The edges all join nodes below `n`, and the counts fit a petgraph index.
pub open spec fn edges_in_range(n: nat, edges: Seq<(usize, usize)>) -> bool {
    &&& n < u32::MAX
    &&& edges.len() < u32::MAX
    &&& forall|k: int| 0 <= k < edges.len() ==> #[trigger] edges[k].0 < n && edges[k].1 < n
}

/// The order in which `petgraph::algo::toposort` lists the nodes of the
/// graph with `n` nodes and the given edges, added in order.
pub uninterp spec fn toposort_order(n: nat, edges: Seq<(usize, usize)>) -> Seq<usize>;

/// `petgraph::algo::is_cyclic_directed` on the graph with `n` nodes and the
/// given edges: whether the graph contains a cycle.
#[verifier::external_body]
pub(crate) fn is_cyclic(n: usize, edges: &Vec<(usize, usize)>) -> (r: bool)
    requires
        edges_in_range(n as nat, edges@),
    ensures
        r == has_cycle(edges@),
{
    let mut g: DiGraph<(), ()> = DiGraph::with_capacity(n, edges.len());
    for _ in 0..n {
        g.add_node(());
    }
    for &(a, b) in edges.iter() {
        g.add_edge(NodeIndex::new(a), NodeIndex::new(b), ());
    }
    petgraph::algo::is_cyclic_directed(&g)
}

/// `petgraph::algo::toposort` on the graph with `n` nodes and the given
/// edges. It succeeds exactly when the graph has no cycle, and then lists
/// every node before its successors; on a cycle it names a node below `n`.
/// Which topological order it picks is named, not restated.
#[verifier::external_body]
pub(crate) fn toposort(n: usize, edges: &Vec<(usize, usize)>) -> (r: Result<Vec<usize>, usize>)
    requires
        edges_in_range(n as nat, edges@),
    ensures
        r is Ok <==> !has_cycle(edges@),
        r matches Ok(order) ==> order@ == toposort_order(n as nat, edges@)
            && is_topological_order(n as nat, edges@, order@),
        r matches Err(c) ==> c < n,
{
    let mut g: DiGraph<(), ()> = DiGraph::with_capacity(n, edges.len());
    for _ in 0..n {
        g.add_node(());
    }
    for &(a, b) in edges.iter() {
        g.add_edge(NodeIndex::new(a), NodeIndex::new(b), ());
    }
    match petgraph::algo::toposort(&g, None) {
        Ok(order) => Ok(order.iter().map(|i| i.index()).collect()),
        Err(cycle) => Err(cycle.node_id().index()),
    }
}

} // verus!
