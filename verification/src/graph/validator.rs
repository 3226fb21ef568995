//! Structural checks of flow graphs: cycles, unreachable steps, dead ends,
//! and a topological order of the steps.

use vstd::prelude::*;
use crate::error::HornetError;
use crate::graph::{FlowEdge, FlowGraph};
use crate::graph::algo::{edges_in_range, has_cycle, is_cyclic, is_edge, is_path, is_topological_order, toposort, toposort_order};
use crate::graph::builder::{conditional_loops, edge_views, sequential_edges, workflow_edges};
use crate::models::arazzo::Step;
use crate::text::{decimal, decimal_u64, join, join_spec, views_of};

verus! {

/// The edges among the first `k` that are not self-loops, as pairs.
pub open spec fn plain_edges_upto(edges: Seq<(usize, usize, FlowEdge)>, k: int) -> Seq<(usize, usize)>
    decreases k,
{
    if k <= 0 {
        Seq::empty()
    } else {
        let prev = plain_edges_upto(edges, k - 1);
        let e = edges[k - 1];
        if e.0 != e.1 {
            prev.push((e.0, e.1))
        } else {
            prev
        }
    }
}

/// The graph's edges that are not self-loops, in order.
pub open spec fn plain_edges(g: FlowGraph) -> Seq<(usize, usize)> {
    plain_edges_upto(g.edges(), g.edges().len() as int)
}

/// The graph has a cycle other than a self-loop.
pub open spec fn has_cycles(g: FlowGraph) -> bool {
    has_cycle(plain_edges(g))
}

/// Some edge, self-loops included, ends at node `i`.
pub open spec fn has_incoming(g: FlowGraph, i: int) -> bool {
    exists|k: int| 0 <= k < g.edges().len() && g.edges()[k].1 == i
}

/// Some edge, self-loops included, starts at node `i`.
pub open spec fn has_outgoing(g: FlowGraph, i: int) -> bool {
    exists|k: int| 0 <= k < g.edges().len() && g.edges()[k].0 == i
}

/// The step IDs of nodes `1..k` without incoming edges.
pub open spec fn unreachable_upto(g: FlowGraph, k: int) -> Seq<Seq<char>>
    decreases k,
{
    if k <= 1 {
        Seq::empty()
    } else if !has_incoming(g, k - 1) {
        unreachable_upto(g, k - 1).push(g.nodes()[k - 1].step_id@)
    } else {
        unreachable_upto(g, k - 1)
    }
}

/// The step IDs of the nodes other than the first without incoming edges.
pub open spec fn unreachable_nodes(g: FlowGraph) -> Seq<Seq<char>> {
    unreachable_upto(g, g.nodes().len() as int)
}

/// The step IDs of nodes `0..k` without outgoing edges.
pub open spec fn dead_ends_upto(g: FlowGraph, k: int) -> Seq<Seq<char>>
    decreases k,
{
    if k <= 0 {
        Seq::empty()
    } else if !has_outgoing(g, k - 1) {
        dead_ends_upto(g, k - 1).push(g.nodes()[k - 1].step_id@)
    } else {
        dead_ends_upto(g, k - 1)
    }
}

/// The step IDs of the nodes without outgoing edges.
pub open spec fn dead_end_nodes(g: FlowGraph) -> Seq<Seq<char>> {
    dead_ends_upto(g, g.nodes().len() as int)
}

/// The text `format!("{:?}", list)` writes for a list of strings.
pub uninterp spec fn debug_list_text(items: Seq<Seq<char>>) -> Seq<char>;

/// `format!("{:?}", ..)` on a vector of strings.
#[verifier::external_body]
fn debug_list(items: &Vec<String>) -> (s: String)
    ensures
        s@ == debug_list_text(views_of(items@)),
{
    format!("{:?}", items)
}

/// The message of the cycle error.
pub open spec fn cycle_error() -> Seq<char> {
    "Graph contains cycles (not a DAG)"@
}

/// The message of the failed topological sort.
pub open spec fn toposort_error() -> Seq<char> {
    "Failed to compute topological order: Graph generation error: Graph contains cycles, cannot compute topological order"@
}

/// The step IDs of the nodes, in the order `petgraph` sorts them.
pub open spec fn topological_names(g: FlowGraph) -> Seq<Seq<char>> {
    toposort_order(g.nodes().len(), plain_edges(g)).map_values(|i: usize| g.nodes()[i as int].step_id@)
}

/// The errors that validation reports.
pub open spec fn expected_errors(g: FlowGraph) -> Seq<Seq<char>> {
    if has_cycles(g) {
        seq![cycle_error(), toposort_error()]
    } else {
        Seq::empty()
    }
}

/// The warning on unreachable nodes, if any.
pub open spec fn unreachable_warning(g: FlowGraph) -> Seq<Seq<char>> {
    let u = unreachable_nodes(g);
    if u.len() > 0 {
        seq!["Found "@ + decimal(u.len()) + " unreachable nodes: "@ + debug_list_text(u)]
    } else {
        Seq::empty()
    }
}

/// The warning on dead ends, if more than one.
pub open spec fn dead_end_warning(g: FlowGraph) -> Seq<Seq<char>> {
    let d = dead_end_nodes(g);
    if d.len() > 1 {
        seq!["Found "@ + decimal(d.len()) + " nodes with no outgoing edges: "@ + debug_list_text(d)]
    } else {
        Seq::empty()
    }
}

/// The warnings that validation reports.
pub open spec fn expected_warnings(g: FlowGraph) -> Seq<Seq<char>> {
    unreachable_warning(g) + dead_end_warning(g) + if has_cycles(g) {
        Seq::empty()
    } else {
        seq!["Topological order: "@ + join_spec(topological_names(g), " → "@)]
    }
}

/// Result of graph validation.
pub struct ValidationResult {
    /// Whether the graph is valid.
    pub is_valid: bool,
    pub errors: Vec<String>,
    pub warnings: Vec<String>,
}

impl ValidationResult {
    /// Whether the validation passed.
    pub fn is_ok(&self) -> (r: bool)
        ensures
            r == self.is_valid,
    {
        self.is_valid
    }

    /// The one-line summary of the result.
    pub open spec fn spec_summary(&self) -> Seq<char> {
        if self.is_valid {
            if self.warnings@.len() == 0 {
                "Graph is valid with no warnings"@
            } else {
                "Graph is valid with "@ + decimal(self.warnings@.len()) + " warnings"@
            }
        } else {
            "Graph is invalid with "@ + decimal(self.errors@.len()) + " errors"@
        }
    }

    /// The one-line summary of the result.
    pub fn summary(&self) -> (s: String)
        ensures
            s@ == self.spec_summary(),
    {
        if self.is_valid {
            if self.warnings.len() == 0 {
                String::from_str("Graph is valid with no warnings")
            } else {
                let mut s = String::from_str("Graph is valid with ");
                s.append(decimal_u64(self.warnings.len() as u64).as_str());
                s.append(" warnings");
                s
            }
        } else {
            let mut s = String::from_str("Graph is invalid with ");
            s.append(decimal_u64(self.errors.len() as u64).as_str());
            s.append(" errors");
            s
        }
    }
}

/// Validator for flow graphs.
pub struct FlowGraphValidator<'a> {
    graph: &'a FlowGraph,
}

impl<'a> FlowGraphValidator<'a> {
    /// The graph validated.
    pub closed spec fn spec_graph(&self) -> &'a FlowGraph {
        self.graph
    }

    /// A validator for the given graph.
    pub fn new(graph: &'a FlowGraph) -> (v: Self)
        ensures
            v.spec_graph() == graph,
    {
        FlowGraphValidator { graph }
    }

    /// The edges that are not self-loops, as pairs.
    fn plain_edge_list(&self) -> (r: Vec<(usize, usize)>)
        requires
            self.graph.wf(),
        ensures
            r@ == plain_edges(*self.graph),
            edges_in_range(self.graph.nodes().len(), r@),
    {
        let g = self.graph;
        let m = g.edge_count();
        let mut r: Vec<(usize, usize)> = Vec::new();
        let mut k: usize = 0;
        while k < m
            invariant
                g.wf(),
                m == g.edges().len(),
                k <= m,
                r@ == plain_edges_upto(g.edges(), k as int),
                r@.len() <= k,
                forall|j: int| 0 <= j < r@.len() ==> #[trigger] r@[j].0 < g.nodes().len() && r@[j].1 < g.nodes().len(),
            decreases m - k,
        {
            let (a, b, _) = g.edge(k);
            assert(g.edges()[k as int].0 < g.nodes().len());
            if a != b {
                let ghost before = r@;
                r.push((a, b));
                assert(forall|j: int| 0 <= j < before.len() ==> r@[j] == before[j]);
            }
            k = k + 1;
        }
        r
    }

    /// The step IDs of the nodes other than the first without incoming
    /// edges.
    fn find_unreachable_nodes(&self) -> (r: Vec<String>)
        requires
            self.graph.wf(),
        ensures
            views_of(r@) == unreachable_nodes(*self.graph),
    {
        let g = self.graph;
        let n = g.node_count();
        let m = g.edge_count();
        let mut r: Vec<String> = Vec::new();
        if n <= 1 {
            assert(views_of(r@) =~= unreachable_nodes(*g));
            return r;
        }
        let mut i: usize = 1;
        assert(views_of(r@) =~= unreachable_upto(*g, 1));
        while i < n
            invariant
                n == g.nodes().len(),
                m == g.edges().len(),
                1 <= i <= n,
                views_of(r@) == unreachable_upto(*g, i as int),
            decreases n - i,
        {
            let mut incoming = false;
            let mut k: usize = 0;
            while k < m
                invariant
                    m == g.edges().len(),
                    k <= m,
                    incoming == exists|j: int| 0 <= j < k && g.edges()[j].1 == i,
                decreases m - k,
            {
                let (_, b, _) = g.edge(k);
                if b == i {
                    incoming = true;
                }
                k = k + 1;
            }
            if !incoming {
                let ghost before = r@;
                r.push(g.node(i).step_id.clone());
                assert(views_of(r@) =~= views_of(before).push(g.nodes()[i as int].step_id@));
            }
            i = i + 1;
        }
        r
    }

    /// The step IDs of the nodes without outgoing edges.
    fn find_dead_end_nodes(&self) -> (r: Vec<String>)
        requires
            self.graph.wf(),
        ensures
            views_of(r@) == dead_end_nodes(*self.graph),
    {
        let g = self.graph;
        let n = g.node_count();
        let m = g.edge_count();
        let mut r: Vec<String> = Vec::new();
        let mut i: usize = 0;
        assert(views_of(r@) =~= dead_ends_upto(*g, 0));
        while i < n
            invariant
                n == g.nodes().len(),
                m == g.edges().len(),
                i <= n,
                views_of(r@) == dead_ends_upto(*g, i as int),
            decreases n - i,
        {
            let mut outgoing = false;
            let mut k: usize = 0;
            while k < m
                invariant
                    m == g.edges().len(),
                    k <= m,
                    outgoing == exists|j: int| 0 <= j < k && g.edges()[j].0 == i,
                decreases m - k,
            {
                let (a, _, _) = g.edge(k);
                if a == i {
                    outgoing = true;
                }
                k = k + 1;
            }
            if !outgoing {
                let ghost before = r@;
                r.push(g.node(i).step_id.clone());
                assert(views_of(r@) =~= views_of(before).push(g.nodes()[i as int].step_id@));
            }
            i = i + 1;
        }
        r
    }

    /// Validates the graph. It is invalid exactly when it has a cycle other
    /// than a self-loop; the warnings list unreachable nodes, dead ends
    /// (when more than one) and the topological order.
    pub fn validate(&self) -> (r: Result<ValidationResult, HornetError>)
        requires
            self.spec_graph().wf(),
        ensures
            r matches Ok(res) && res.is_valid == !has_cycles(*self.spec_graph())
                && views_of(res.errors@) == expected_errors(*self.spec_graph())
                && views_of(res.warnings@) == expected_warnings(*self.spec_graph()),
            !has_cycles(*self.spec_graph()) ==> is_topological_order(
                self.spec_graph().nodes().len(),
                plain_edges(*self.spec_graph()),
                toposort_order(self.spec_graph().nodes().len(), plain_edges(*self.spec_graph())),
            ),
    {
        let g = self.graph;
        let n = g.node_count();
        let plain = self.plain_edge_list();
        let mut is_valid = true;
        let mut errors: Vec<String> = Vec::new();
        let mut warnings: Vec<String> = Vec::new();

        if is_cyclic(n, &plain) {
            is_valid = false;
            errors.push(String::from_str("Graph contains cycles (not a DAG)"));
        }

        let unreachable = self.find_unreachable_nodes();
        if unreachable.len() > 0 {
            let mut w = String::from_str("Found ");
            w.append(decimal_u64(unreachable.len() as u64).as_str());
            w.append(" unreachable nodes: ");
            w.append(debug_list(&unreachable).as_str());
            warnings.push(w);
        }

        let dead_ends = self.find_dead_end_nodes();
        if dead_ends.len() > 1 {
            let mut w = String::from_str("Found ");
            w.append(decimal_u64(dead_ends.len() as u64).as_str());
            w.append(" nodes with no outgoing edges: ");
            w.append(debug_list(&dead_ends).as_str());
            warnings.push(w);
        }

        match toposort(n, &plain) {
            Ok(order) => {
                let mut names: Vec<String> = Vec::new();
                let mut i: usize = 0;
                while i < order.len()
                    invariant
                        n == g.nodes().len(),
                        order@.len() == n,
                        forall|j: int| 0 <= j < n ==> #[trigger] order@[j] < n,
                        i <= order@.len(),
                        views_of(names@) == order@.subrange(0, i as int).map_values(
                            |x: usize| g.nodes()[x as int].step_id@,
                        ),
                    decreases order.len() - i,
                {
                    let ghost before = names@;
                    assert(order@[i as int] < n);
                    let name = g.node(order[i]).step_id.clone();
                    assert(name@ == g.nodes()[order@[i as int] as int].step_id@);
                    names.push(name);
                    assert(views_of(names@) =~= views_of(before).push(name@));
                    i = i + 1;
                    assert(order@.subrange(0, i as int).map_values(|x: usize| g.nodes()[x as int].step_id@)
                        =~= order@.subrange(0, i - 1).map_values(|x: usize| g.nodes()[x as int].step_id@).push(name@));
                }
                assert(order@.subrange(0, order@.len() as int) =~= order@);
                let mut w = String::from_str("Topological order: ");
                w.append(join(&names, " → ").as_str());
                warnings.push(w);
            },
            Err(_) => {
                errors.push(String::from_str(
                    "Failed to compute topological order: Graph generation error: Graph contains cycles, cannot compute topological order",
                ));
                is_valid = false;
            },
        }
        assert(views_of(errors@) =~= expected_errors(*g));
        assert(views_of(warnings@) =~= expected_warnings(*g));
        Ok(ValidationResult { is_valid, errors, warnings })
    }
}

/// Validates a flow graph.
pub fn validate_flow_graph(graph: &FlowGraph) -> (r: Result<ValidationResult, HornetError>)
    requires
        graph.wf(),
    ensures
        r matches Ok(res) && res.is_valid == !has_cycles(*graph)
            && views_of(res.errors@) == expected_errors(*graph)
            && views_of(res.warnings@) == expected_warnings(*graph),
        !has_cycles(*graph) ==> is_topological_order(
            graph.nodes().len(),
            plain_edges(*graph),
            toposort_order(graph.nodes().len(), plain_edges(*graph)),
        ),
{
    FlowGraphValidator::new(graph).validate()
}

/// Every conditional edge of a workflow is a self-loop.
proof fn lemma_conditional_loops_are_self_loops(steps: Seq<Step>)
    ensures
        forall|k: int| 0 <= k < conditional_loops(steps).len() ==> #[trigger] conditional_loops(steps)[k].0
            == conditional_loops(steps)[k].1,
    decreases steps.len(),
{
    if steps.len() > 0 {
        let prev = conditional_loops(steps.drop_last());
        lemma_conditional_loops_are_self_loops(steps.drop_last());
        let cur = conditional_loops(steps);
        assert forall|k: int| 0 <= k < cur.len() implies #[trigger] cur[k].0 == cur[k].1 by {
            if k < prev.len() {
                assert(cur[k] == prev[k]);
            }
        }
    }
}

/// Each non-loop edge among the first `k` goes from a node to the next one,
/// when every edge is a self-loop or goes to the next node.
proof fn lemma_plain_edges_step_forward(edges: Seq<(usize, usize, FlowEdge)>, k: int)
    requires
        0 <= k <= edges.len(),
        forall|j: int| 0 <= j < edges.len() ==> #[trigger] edges[j].0 == edges[j].1 || edges[j].1 == edges[j].0 + 1,
    ensures
        forall|j: int| 0 <= j < plain_edges_upto(edges, k).len() ==> #[trigger] plain_edges_upto(edges, k)[j].1
            == plain_edges_upto(edges, k)[j].0 + 1,
    decreases k,
{
    if k > 0 {
        lemma_plain_edges_step_forward(edges, k - 1);
        let e = edges[k - 1];
        assert(e.0 == e.1 || e.1 == e.0 + 1);
        let prev = plain_edges_upto(edges, k - 1);
        let cur = plain_edges_upto(edges, k);
        assert forall|j: int| 0 <= j < cur.len() implies #[trigger] cur[j].1 == cur[j].0 + 1 by {
            if j < prev.len() {
                assert(cur[j] == prev[j]);
            }
        }
    }
}

/// Along a path whose edges each go to the next node, the `i`-th entry is
/// `i` past the first.
proof fn lemma_path_steps_forward(edges: Seq<(usize, usize)>, p: Seq<int>, i: int)
    requires
        is_path(edges, p),
        0 <= i < p.len(),
        forall|k: int| 0 <= k < edges.len() ==> #[trigger] edges[k].1 == edges[k].0 + 1,
    ensures
        p[i] == p[0] + i,
    decreases i,
{
    if i > 0 {
        lemma_path_steps_forward(edges, p, i - 1);
        let j = i - 1;
        assert(is_edge(edges, p[j], p[j + 1]));
        let k = choose|k: int| 0 <= k < edges.len() && edges[k].0 == p[i - 1] && edges[k].1 == p[i];
        assert(edges[k].1 == edges[k].0 + 1);
    }
}

/// A graph built from a workflow has no cycle apart from self-loops, so
/// validation always finds it valid: its only edges lead from each step to
/// the next one or from a step to itself.
pub proof fn law_built_graph_has_no_cycles(steps: Seq<Step>, g: FlowGraph)
    requires
        g.wf(),
        g.nodes().len() == steps.len(),
        edge_views(g) == workflow_edges(steps),
    ensures
        !has_cycles(g),
{
    lemma_conditional_loops_are_self_loops(steps);
    let edges = g.edges();
    assert forall|j: int| 0 <= j < edges.len() implies #[trigger] edges[j].0 == edges[j].1 || edges[j].1
        == edges[j].0 + 1 by {
        let v = edge_views(g)[j];
        assert(v.0 == edges[j].0 && v.1 == edges[j].1);
        let sq = sequential_edges(steps.len());
        let cl = conditional_loops(steps);
        assert(workflow_edges(steps) == sq + cl);
        assert(edge_views(g).len() == edges.len());
        assert(v == (sq + cl)[j]);
        if j < sq.len() {
            assert(sq[j].1 == sq[j].0 + 1);
        } else {
            assert(cl[j - sq.len()].0 == cl[j - sq.len()].1);
        }
    }
    lemma_plain_edges_step_forward(edges, edges.len() as int);
    let plain = plain_edges(g);
    if has_cycle(plain) {
        let p = choose|p: Seq<int>| #[trigger] is_path(plain, p) && p.len() >= 2 && p[0] == p[p.len() - 1];
        lemma_path_steps_forward(plain, p, p.len() - 1);
    }
}

} // verus!
