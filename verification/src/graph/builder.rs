//! Construction of flow graphs from workflows.

use vstd::prelude::*;
use crate::error::HornetError;
use crate::graph::{EdgeType, FlowEdge, FlowGraph, FlowNode};
use crate::models::arazzo::{Step, Workflow};
use crate::models::openapi::{find_operation_in, first_operation_from, lemma_first_operation_bounds, HttpMethod, OpenApiV3Spec};
use crate::text::{decimal, decimal_u64};

verus! {

/// The methods searched, in order, when resolving a step's operation.
pub open spec fn resolution_methods() -> Seq<HttpMethod> {
    seq![HttpMethod::Get, HttpMethod::Post, HttpMethod::Put, HttpMethod::Delete, HttpMethod::Patch]
}

/// The HTTP method of a step's operation, looked up by its identifier in
/// the OpenAPI document, if one is given.
pub open spec fn resolved_method(api: Option<&OpenApiV3Spec>, step: Step) -> Option<Seq<char>> {
    match (api, step.operation_id) {
        (Some(a), Some(id)) => method_for_id(a, id@),
        _ => None,
    }
}

/// The HTTP method of the operation `id` in the OpenAPI document.
pub open spec fn method_for_id(a: &OpenApiV3Spec, id: Seq<char>) -> Option<Seq<char>> {
    match a.paths {
        Some(paths) => match first_operation_from(paths@, resolution_methods(), id, 0) {
            Some((_, m)) => Some(m.spec_name()),
            None => None,
        },
        None => None,
    }
}

/// Node `n` stands for `step`, with its method resolved through `api`.
pub open spec fn node_for_step(n: FlowNode, step: Step, api: Option<&OpenApiV3Spec>) -> bool {
    &&& n.step_id == step.step_id
    &&& n.operation_id == step.operation_id
    &&& n.operation_path == step.operation_path
    &&& n.description == step.description
    &&& n.has_outputs == step.outputs is Some
    &&& n.has_success_criteria == step.success_criteria is Some
    &&& match n.method {
        Some(m) => resolved_method(api, step) == Some(m@),
        None => resolved_method(api, step) is None,
    }
}

/// The edges from each step to the next, in step order.
pub open spec fn sequential_edges(n: nat) -> Seq<(usize, usize, (EdgeType, Option<Seq<char>>, Option<Seq<char>>))> {
    Seq::new(
        (if n > 0 { n - 1 } else { 0 }) as nat,
        |i: int| (i as usize, (i + 1) as usize, (EdgeType::Sequential, None, Some("Sequential execution"@))),
    )
}

/// The description of a step's conditional self-loop.
pub open spec fn criteria_description(count: nat) -> Seq<char> {
    "Success criteria: "@ + decimal(count) + " conditions"@
}

/// A self-loop for each step with success criteria, in step order.
pub open spec fn conditional_loops(steps: Seq<Step>) -> Seq<(usize, usize, (EdgeType, Option<Seq<char>>, Option<Seq<char>>))>
    decreases steps.len(),
{
    if steps.len() == 0 {
        Seq::empty()
    } else {
        let prev = conditional_loops(steps.drop_last());
        let i = (steps.len() - 1) as usize;
        match steps.last().success_criteria {
            Some(c) => if c@.len() > 0 {
                prev.push((i, i, (EdgeType::Conditional, None, Some(criteria_description(c@.len())))))
            } else {
                prev
            },
            None => prev,
        }
    }
}

/// The edges of the flow graph of a workflow with these steps.
pub open spec fn workflow_edges(steps: Seq<Step>) -> Seq<(usize, usize, (EdgeType, Option<Seq<char>>, Option<Seq<char>>))> {
    sequential_edges(steps.len()) + conditional_loops(steps)
}

/// The views of a graph's edges.
pub open spec fn edge_views(g: FlowGraph) -> Seq<(usize, usize, (EdgeType, Option<Seq<char>>, Option<Seq<char>>))> {
    g.edges().map_values(|e: (usize, usize, FlowEdge)| (e.0, e.1, e.2@))
}

/// Builder for the flow graph of a workflow.
pub struct FlowGraphBuilder<'a> {
    workflow: &'a Workflow,
    openapi: Option<&'a OpenApiV3Spec>,
}

impl<'a> FlowGraphBuilder<'a> {
    /// The workflow the graph is built from.
    pub closed spec fn spec_workflow(&self) -> &'a Workflow {
        self.workflow
    }

    /// The OpenAPI document used to resolve methods, if any.
    pub closed spec fn spec_openapi(&self) -> Option<&'a OpenApiV3Spec> {
        self.openapi
    }

    /// A builder for the given workflow, without an OpenAPI document.
    pub fn new(workflow: &'a Workflow) -> (b: Self)
        ensures
            b.spec_workflow() == workflow,
            b.spec_openapi() is None,
    {
        FlowGraphBuilder { workflow, openapi: None }
    }

    /// The same builder, resolving methods through `openapi`.
    pub fn with_openapi(self, openapi: &'a OpenApiV3Spec) -> (b: Self)
        ensures
            b.spec_workflow() == self.spec_workflow(),
            b.spec_openapi() == Some(openapi),
    {
        FlowGraphBuilder { workflow: self.workflow, openapi: Some(openapi) }
    }

    /// The HTTP method of the operation with the given identifier.
    fn resolve_method_by_operation_id(openapi: &OpenApiV3Spec, operation_id: &String) -> (r: Option<String>)
        ensures
            match r {
                Some(m) => method_for_id(openapi, operation_id@) == Some(m@),
                None => method_for_id(openapi, operation_id@) is None,
            },
    {
        match &openapi.paths {
            Some(paths) => {
                let methods = [HttpMethod::Get, HttpMethod::Post, HttpMethod::Put, HttpMethod::Delete, HttpMethod::Patch];
                assert(methods@ =~= resolution_methods());
                match find_operation_in(paths, &methods, operation_id.as_str()) {
                    Some((_, m)) => Some(m.name()),
                    None => None,
                }
            },
            None => None,
        }
    }

    /// Builds the graph: one node per step in step order, an edge from
    /// each step to the next, and a self-loop on each step with success
    /// criteria.
    pub fn build(self) -> (r: Result<FlowGraph, HornetError>)
        requires
            self.spec_workflow().steps@.len() < 0x7fff_fff0,
        ensures
            r matches Ok(g) && g.wf() && g.workflow_id == self.spec_workflow().workflow_id
                && g.nodes().len() == self.spec_workflow().steps@.len()
                && (forall|i: int|
                0 <= i < g.nodes().len() ==> #[trigger] node_for_step(
                    g.nodes()[i],
                    self.spec_workflow().steps@[i],
                    self.spec_openapi(),
                )) && edge_views(g) == workflow_edges(self.spec_workflow().steps@),
    {
        let w = self.workflow;
        let n = w.steps.len();
        let mut graph = FlowGraph::new(w.workflow_id.clone());
        let mut i: usize = 0;
        while i < n
            invariant
                n == w.steps@.len() < 0x7fff_fff0,
                i <= n,
                graph.wf(),
                graph.workflow_id == w.workflow_id,
                graph.nodes().len() == i,
                graph.edges().len() == 0,
                forall|k: int| 0 <= k < i ==> #[trigger] node_for_step(graph.nodes()[k], w.steps@[k], self.openapi),
            decreases n - i,
        {
            let step = &w.steps[i];
            let mut node = FlowNode::from_step(step);
            match self.openapi {
                Some(api) => {
                    match &step.operation_id {
                        Some(op) => {
                            node.method = Self::resolve_method_by_operation_id(api, op);
                        },
                        None => {},
                    }
                },
                None => {},
            }
            let ghost before = graph.nodes();
            graph.add_node(node);
            assert(forall|k: int| 0 <= k < i ==> graph.nodes()[k] == before[k]);
            i = i + 1;
        }
        let mut k: usize = 0;
        while k + 1 < n
            invariant
                n == w.steps@.len() < 0x7fff_fff0,
                graph.wf(),
                graph.workflow_id == w.workflow_id,
                graph.nodes().len() == n,
                forall|j: int| 0 <= j < n ==> #[trigger] node_for_step(graph.nodes()[j], w.steps@[j], self.openapi),
                k == graph.edges().len(),
                k < n || k == 0,
                edge_views(graph) == sequential_edges(k as nat + 1),
            decreases n - k,
        {
            let ghost before = edge_views(graph);
            graph.add_edge(k, k + 1, FlowEdge::sequential());
            k = k + 1;
            assert(edge_views(graph) =~= before.push((
                (k - 1) as usize,
                k as usize,
                (EdgeType::Sequential, None, Some("Sequential execution"@)),
            )));
            assert(edge_views(graph) =~= sequential_edges(k as nat + 1));
        }
        assert(edge_views(graph) == sequential_edges(k as nat + 1));
        proof {
            if n == 0 {
                assert(sequential_edges(1) =~= sequential_edges(0));
                assert(edge_views(graph) =~= sequential_edges(n as nat));
            } else {
                assert(k as nat + 1 == n as nat);
                assert(edge_views(graph) =~= sequential_edges(n as nat));
            }
        }
        assert(edge_views(graph) =~= sequential_edges(n as nat));
        let mut j: usize = 0;
        while j < n
            invariant
                n == w.steps@.len() < 0x7fff_fff0,
                j <= n,
                graph.wf(),
                graph.workflow_id == w.workflow_id,
                graph.nodes().len() == n,
                forall|x: int| 0 <= x < n ==> #[trigger] node_for_step(graph.nodes()[x], w.steps@[x], self.openapi),
                edge_views(graph) == sequential_edges(n as nat) + conditional_loops(w.steps@.subrange(0, j as int)),
                graph.edges().len() <= n + j,
            decreases n - j,
        {
            let ghost before = edge_views(graph);
            assert(w.steps@.subrange(0, j + 1).drop_last() =~= w.steps@.subrange(0, j as int));
            match &w.steps[j].success_criteria {
                Some(criteria) => {
                    if criteria.len() > 0 {
                        let mut description = String::from_str("Success criteria: ");
                        let count = decimal_u64(criteria.len() as u64);
                        description.append(count.as_str());
                        description.append(" conditions");
                        graph.add_edge(j, j, FlowEdge::conditional(description));
                        assert(edge_views(graph) =~= before.push((j, j, (EdgeType::Conditional, None, Some(criteria_description(criteria@.len()))))));
                    }
                },
                None => {},
            }
            j = j + 1;
        }
        assert(w.steps@.subrange(0, n as int) =~= w.steps@);
        Ok(graph)
    }
}

/// Builds the flow graph of a workflow, resolving methods through
/// `openapi` when given.
pub fn build_flow_graph(workflow: &Workflow, openapi: Option<&OpenApiV3Spec>) -> (r: Result<FlowGraph, HornetError>)
    requires
        workflow.steps@.len() < 0x7fff_fff0,
    ensures
        r matches Ok(g) && g.wf() && g.workflow_id == workflow.workflow_id
            && g.nodes().len() == workflow.steps@.len()
            && (forall|i: int|
            0 <= i < g.nodes().len() ==> #[trigger] node_for_step(g.nodes()[i], workflow.steps@[i], openapi))
            && edge_views(g) == workflow_edges(workflow.steps@),
{
    let mut builder = FlowGraphBuilder::new(workflow);
    match openapi {
        Some(spec) => {
            builder = builder.with_openapi(spec);
        },
        None => {},
    }
    builder.build()
}

} // verus!
