//! Flow graphs of Arazzo workflows: one node per step, edges for execution
//! order and conditions.

pub mod algo;
pub mod builder;
pub mod exporter;
pub mod validator;

use vstd::prelude::*;
use petgraph::graph::{DiGraph, Graph, NodeIndex};
use crate::models::arazzo::Step;
use crate::text::opt_view;

verus! {

#[verifier::external_type_specification]
#[verifier::external_body]
#[verifier::reject_recursive_types(N)]
#[verifier::reject_recursive_types(E)]
#[verifier::reject_recursive_types(Ty)]
#[verifier::reject_recursive_types(Ix)]
pub struct ExGraph<N, E, Ty, Ix>(Graph<N, E, Ty, Ix>);

#[verifier::external_type_specification]
#[verifier::external_body]
pub struct ExDirected(petgraph::Directed);

/// A node of the flow graph: one workflow step.
#[derive(Debug)]
pub struct FlowNode {
    pub step_id: String,
    /// The operation ID, if the step references an OpenAPI operation.
    pub operation_id: Option<String>,
    /// The operation path, if the step references one.
    pub operation_path: Option<String>,
    /// HTTP method (GET, POST, ...), when resolved from OpenAPI.
    pub method: Option<String>,
    pub description: Option<String>,
    /// Whether the step has outputs.
    pub has_outputs: bool,
    /// Whether the step has success criteria.
    pub has_success_criteria: bool,
}

/// The kind of relationship an edge stands for.
#[derive(Debug, Clone, Copy, PartialEq, Eq, Structural)]
pub enum EdgeType {
    /// Sequential execution (step1 -> step2).
    Sequential,
    /// Conditional execution based on success criteria.
    Conditional,
    /// Data dependency (step2 uses output from step1).
    DataDependency,
    /// Success path (onSuccess: goto).
    OnSuccess,
    /// Failure path (onFailure: goto).
    OnFailure,
}

/// An edge of the flow graph.
#[derive(Debug)]
pub struct FlowEdge {
    pub edge_type: EdgeType,
    /// Data reference (e.g. "$steps.login.outputs.token").
    pub data_ref: Option<String>,
    pub description: Option<String>,
}

impl View for FlowEdge {
    type V = (EdgeType, Option<Seq<char>>, Option<Seq<char>>);

    open spec fn view(&self) -> (EdgeType, Option<Seq<char>>, Option<Seq<char>>) {
        (self.edge_type, opt_view(self.data_ref), opt_view(self.description))
    }
}

/// The nodes of a petgraph graph of flow nodes, by index.
pub uninterp spec fn graph_nodes(g: DiGraph<FlowNode, FlowEdge>) -> Seq<FlowNode>;

/// The edges of a petgraph graph of flow nodes, by index: source, target
/// and weight.
pub uninterp spec fn graph_edges(g: DiGraph<FlowNode, FlowEdge>) -> Seq<(usize, usize, FlowEdge)>;

/// `Graph::new`: an empty directed graph.
#[verifier::external_body]
fn graph_new() -> (g: DiGraph<FlowNode, FlowEdge>)
    ensures
        graph_nodes(g) == Seq::<FlowNode>::empty(),
        graph_edges(g) == Seq::<(usize, usize, FlowEdge)>::empty(),
{
    DiGraph::new()
}

/// `Graph::add_node`: appends a node and returns its index. The call
/// panics when the index would be `u32::MAX`, which `requires` excludes.
#[verifier::external_body]
fn graph_add_node(g: &mut DiGraph<FlowNode, FlowEdge>, node: FlowNode) -> (i: usize)
    requires
        graph_nodes(*old(g)).len() < u32::MAX,
    ensures
        i == graph_nodes(*old(g)).len(),
        graph_nodes(*final(g)) == graph_nodes(*old(g)).push(node),
        graph_edges(*final(g)) == graph_edges(*old(g)),
{
    g.add_node(node).index()
}

/// `Graph::add_edge`: appends an edge from `a` to `b`. The call panics on
/// an index out of range or at `u32::MAX` edges, which `requires` excludes.
#[verifier::external_body]
fn graph_add_edge(g: &mut DiGraph<FlowNode, FlowEdge>, a: usize, b: usize, edge: FlowEdge)
    requires
        a < graph_nodes(*old(g)).len(),
        b < graph_nodes(*old(g)).len(),
        graph_edges(*old(g)).len() < u32::MAX,
    ensures
        graph_nodes(*final(g)) == graph_nodes(*old(g)),
        graph_edges(*final(g)) == graph_edges(*old(g)).push((a, b, edge)),
{
    g.add_edge(NodeIndex::new(a), NodeIndex::new(b), edge);
}

/// Indexing a graph by node: the weight of node `i`.
#[verifier::external_body]
fn graph_node(g: &DiGraph<FlowNode, FlowEdge>, i: usize) -> (n: &FlowNode)
    requires
        i < graph_nodes(*g).len(),
    ensures
        *n == graph_nodes(*g)[i as int],
{
    &g[NodeIndex::new(i)]
}

/// `Graph::raw_edges`, at position `k`: source, target and weight.
#[verifier::external_body]
fn graph_edge(g: &DiGraph<FlowNode, FlowEdge>, k: usize) -> (r: (usize, usize, &FlowEdge))
    requires
        k < graph_edges(*g).len(),
    ensures
        (r.0, r.1, *r.2) == graph_edges(*g)[k as int],
{
    let e = &g.raw_edges()[k];
    (e.source().index(), e.target().index(), &e.weight)
}

/// `Graph::node_count`.
#[verifier::external_body]
fn graph_node_count(g: &DiGraph<FlowNode, FlowEdge>) -> (n: usize)
    ensures
        n == graph_nodes(*g).len(),
{
    g.node_count()
}

/// `Graph::edge_count`.
#[verifier::external_body]
fn graph_edge_count(g: &DiGraph<FlowNode, FlowEdge>) -> (n: usize)
    ensures
        n == graph_edges(*g).len(),
{
    g.edge_count()
}

/// A flow graph representing an Arazzo workflow.
pub struct FlowGraph {
    /// The underlying directed graph.
    pub graph: DiGraph<FlowNode, FlowEdge>,
    /// The workflow this graph represents.
    pub workflow_id: String,
}

impl FlowGraph {
    /// The nodes, by index.
    pub open spec fn nodes(&self) -> Seq<FlowNode> {
        graph_nodes(self.graph)
    }

    /// The edges, by index: source, target and weight.
    pub open spec fn edges(&self) -> Seq<(usize, usize, FlowEdge)> {
        graph_edges(self.graph)
    }

    /// Every edge joins existing nodes, and both counts stay below the
    /// graph's index limit.
    pub open spec fn wf(&self) -> bool {
        &&& self.nodes().len() < u32::MAX
        &&& self.edges().len() < u32::MAX
        &&& forall|k: int|
            0 <= k < self.edges().len() ==> #[trigger] self.edges()[k].0 < self.nodes().len()
                && self.edges()[k].1 < self.nodes().len()
    }

    /// An empty graph for the given workflow.
    pub fn new(workflow_id: String) -> (g: Self)
        ensures
            g.wf(),
            g.workflow_id == workflow_id,
            g.nodes() == Seq::<FlowNode>::empty(),
            g.edges() == Seq::<(usize, usize, FlowEdge)>::empty(),
    {
        FlowGraph { graph: graph_new(), workflow_id }
    }

    /// Adds a node and returns its index.
    pub fn add_node(&mut self, node: FlowNode) -> (i: usize)
        requires
            old(self).wf(),
            old(self).nodes().len() + 1 < u32::MAX,
        ensures
            final(self).wf(),
            i == old(self).nodes().len(),
            final(self).nodes() == old(self).nodes().push(node),
            final(self).edges() == old(self).edges(),
            final(self).workflow_id == old(self).workflow_id,
    {
        graph_add_node(&mut self.graph, node)
    }

    /// Adds an edge from node `from` to node `to`.
    pub fn add_edge(&mut self, from: usize, to: usize, edge: FlowEdge)
        requires
            old(self).wf(),
            from < old(self).nodes().len(),
            to < old(self).nodes().len(),
            old(self).edges().len() + 1 < u32::MAX,
        ensures
            final(self).wf(),
            final(self).nodes() == old(self).nodes(),
            final(self).edges() == old(self).edges().push((from, to, edge)),
            final(self).workflow_id == old(self).workflow_id,
    {
        graph_add_edge(&mut self.graph, from, to, edge);
        assert forall|k: int| 0 <= k < self.edges().len() implies #[trigger] self.edges()[k].0 < self.nodes().len()
            && self.edges()[k].1 < self.nodes().len() by {
            if k < self.edges().len() - 1 {
                assert(self.edges()[k] == old(self).edges()[k]);
            }
        }
    }

    /// The node at index `i`.
    pub fn node(&self, i: usize) -> (n: &FlowNode)
        requires
            i < self.nodes().len(),
        ensures
            *n == self.nodes()[i as int],
    {
        graph_node(&self.graph, i)
    }

    /// The edge at index `k`: source, target and weight.
    pub fn edge(&self, k: usize) -> (r: (usize, usize, &FlowEdge))
        requires
            k < self.edges().len(),
        ensures
            (r.0, r.1, *r.2) == self.edges()[k as int],
    {
        graph_edge(&self.graph, k)
    }

    /// The number of nodes.
    pub fn node_count(&self) -> (n: usize)
        ensures
            n == self.nodes().len(),
    {
        graph_node_count(&self.graph)
    }

    /// The number of edges.
    pub fn edge_count(&self) -> (n: usize)
        ensures
            n == self.edges().len(),
    {
        graph_edge_count(&self.graph)
    }

    /// The index of the node added last for `step_id`.
    pub fn get_node_index(&self, step_id: &str) -> (r: Option<usize>)
        ensures
            match r {
                Some(i) => i < self.nodes().len() && self.nodes()[i as int].step_id@ == step_id@
                    && forall|j: int|
                    i < j < self.nodes().len() ==> self.nodes()[j].step_id@ != step_id@,
                None => forall|j: int|
                    0 <= j < self.nodes().len() ==> self.nodes()[j].step_id@ != step_id@,
            },
    {
        let n = self.node_count();
        let mut i: usize = n;
        while i > 0
            invariant
                i <= n == self.nodes().len(),
                forall|j: int| i <= j < n ==> self.nodes()[j].step_id@ != step_id@,
            decreases i,
        {
            i = i - 1;
            if crate::text::str_eq(self.node(i).step_id.as_str(), step_id) {
                return Some(i);
            }
        }
        None
    }

    /// The node added last for `step_id`.
    pub fn get_node(&self, step_id: &str) -> (r: Option<&FlowNode>)
        ensures
            match r {
                Some(node) => exists|i: int|
                    0 <= i < self.nodes().len() && self.nodes()[i] == *node
                        && node.step_id@ == step_id@,
                None => forall|j: int|
                    0 <= j < self.nodes().len() ==> self.nodes()[j].step_id@ != step_id@,
            },
    {
        match self.get_node_index(step_id) {
            Some(i) => Some(self.node(i)),
            None => None,
        }
    }
}

/// Copies an optional string.
pub fn copy_opt_string(s: &Option<String>) -> (r: Option<String>)
    ensures
        r == *s,
{
    match s {
        Some(t) => Some(t.clone()),
        None => None,
    }
}

impl FlowNode {
    /// The node for a step; its method is resolved later, from OpenAPI.
    pub fn from_step(step: &Step) -> (n: Self)
        ensures
            n.step_id == step.step_id,
            n.operation_id == step.operation_id,
            n.operation_path == step.operation_path,
            n.method is None,
            n.description == step.description,
            n.has_outputs == step.outputs is Some,
            n.has_success_criteria == step.success_criteria is Some,
    {
        FlowNode {
            step_id: step.step_id.clone(),
            operation_id: copy_opt_string(&step.operation_id),
            operation_path: copy_opt_string(&step.operation_path),
            method: None,
            description: copy_opt_string(&step.description),
            has_outputs: step.outputs.is_some(),
            has_success_criteria: step.success_criteria.is_some(),
        }
    }
}

impl FlowEdge {
    /// A sequential-execution edge.
    pub fn sequential() -> (e: Self)
        ensures
            e.edge_type == EdgeType::Sequential,
            e.data_ref is None,
            e.description matches Some(d) && d@ == "Sequential execution"@,
    {
        FlowEdge {
            edge_type: EdgeType::Sequential,
            data_ref: None,
            description: Some(String::from_str("Sequential execution")),
        }
    }

    /// A conditional edge with the given description.
    pub fn conditional(description: String) -> (e: Self)
        ensures
            e.edge_type == EdgeType::Conditional,
            e.data_ref is None,
            e.description == Some(description),
    {
        FlowEdge { edge_type: EdgeType::Conditional, data_ref: None, description: Some(description) }
    }

    /// A data-dependency edge on the given reference.
    pub fn data_dependency(data_ref: String) -> (e: Self)
        ensures
            e.edge_type == EdgeType::DataDependency,
            e.data_ref == Some(data_ref),
            e.description matches Some(d) && d@ == "Data dependency: "@ + data_ref@,
    {
        let mut description = String::from_str("Data dependency: ");
        description.append(data_ref.as_str());
        FlowEdge {
            edge_type: EdgeType::DataDependency,
            data_ref: Some(data_ref),
            description: Some(description),
        }
    }

    /// A success-path edge with the given description.
    pub fn on_success(description: String) -> (e: Self)
        ensures
            e.edge_type == EdgeType::OnSuccess,
            e.data_ref is None,
            e.description == Some(description),
    {
        FlowEdge { edge_type: EdgeType::OnSuccess, data_ref: None, description: Some(description) }
    }

    /// A failure-path edge with the given description.
    pub fn on_failure(description: String) -> (e: Self)
        ensures
            e.edge_type == EdgeType::OnFailure,
            e.data_ref is None,
            e.description == Some(description),
    {
        FlowEdge { edge_type: EdgeType::OnFailure, data_ref: None, description: Some(description) }
    }
}

} // verus!
