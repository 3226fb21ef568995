use hornet2::graph::builder::build_flow_graph;
use hornet2::graph::exporter::{export_dot, export_json, export_mermaid};
use hornet2::graph::validator::validate_flow_graph;
use hornet2::graph::{FlowEdge, FlowGraph, FlowNode};
use hornet2::json::{JsonNumber, JsonValue};
use hornet2::models::arazzo::{Parameter, Step, Workflow};

fn s(x: &str) -> String {
    x.to_string()
}

fn step(id: &str, op: &str) -> Step {
    Step {
        step_id: s(id),
        description: None,
        operation_id: Some(s(op)),
        operation_path: None,
        workflow_id: None,
        parameters: vec![],
        request_body: None,
        success_criteria: None,
        on_success: None,
        on_failure: None,
        outputs: None,
    }
}

fn node(id: &str, op: Option<&str>, method: Option<&str>, outputs: bool, criteria: bool) -> FlowNode {
    FlowNode {
        step_id: s(id),
        operation_id: op.map(s),
        operation_path: None,
        method: method.map(s),
        description: None,
        has_outputs: outputs,
        has_success_criteria: criteria,
    }
}

fn workflow(steps: Vec<Step>) -> Workflow {
    Workflow {
        workflow_id: s("test"),
        summary: None,
        description: None,
        inputs: None,
        steps,
        success_criteria: None,
        outputs: None,
        extensions: vec![],
    }
}

#[test]
fn test_simple_workflow() {
    let graph = build_flow_graph(&workflow(vec![step("step1", "op1"), step("step2", "op2")]), None).unwrap();
    assert_eq!(graph.node_count(), 2);
    assert_eq!(graph.edge_count(), 1);
}

#[test]
fn test_data_dependency() {
    let mut login = step("login", "loginUser");
    login.outputs = Some(JsonValue::Object(vec![(s("token"), JsonValue::String(s("$response.body.token")))]));
    let mut profile = step("getProfile", "getProfile");
    profile.parameters = vec![Parameter {
        name: s("Authorization"),
        location: s("header"),
        value: JsonValue::String(s("Bearer $steps.login.outputs.token")),
    }];
    let graph = build_flow_graph(&workflow(vec![login, profile]), None).unwrap();
    assert_eq!(graph.node_count(), 2);
    assert_eq!(graph.edge_count(), 1);
}

#[test]
fn test_valid_linear_graph() {
    let mut graph = FlowGraph::new(s("test"));
    let n1 = graph.add_node(node("step1", None, None, false, false));
    let n2 = graph.add_node(node("step2", None, None, false, false));
    graph.add_edge(n1, n2, FlowEdge::sequential());
    let result = validate_flow_graph(&graph).unwrap();
    assert!(result.is_ok());
}

#[test]
fn test_self_loop_allowed() {
    let mut graph = FlowGraph::new(s("test"));
    let n1 = graph.add_node(node("step1", None, None, false, true));
    graph.add_edge(n1, n1, FlowEdge::conditional(s("condition")));
    let result = validate_flow_graph(&graph).unwrap();
    assert!(result.is_ok());
}

#[test]
fn test_cycle_is_an_error() {
    let mut graph = FlowGraph::new(s("test"));
    let n1 = graph.add_node(node("a", None, None, false, false));
    let n2 = graph.add_node(node("b", None, None, false, false));
    graph.add_edge(n1, n2, FlowEdge::sequential());
    graph.add_edge(n2, n1, FlowEdge::sequential());
    let result = validate_flow_graph(&graph).unwrap();
    assert!(!result.is_ok());
}

fn two_node_graph() -> FlowGraph {
    let mut graph = FlowGraph::new(s("test-workflow"));
    let n1 = graph.add_node(node("step1", Some("getUser"), Some("GET"), true, false));
    let n2 = graph.add_node(node("step2", Some("updateUser"), Some("PUT"), false, false));
    graph.add_edge(n1, n2, FlowEdge::sequential());
    graph
}

#[test]
fn test_export_dot() {
    let mut graph = two_node_graph();
    graph.add_edge(0, 1, FlowEdge::data_dependency(s("$steps.step1.outputs.id")));
    let dot = export_dot(&graph);
    assert!(dot.contains("digraph \"test-workflow\""));
    assert!(dot.contains("step1"));
    assert!(dot.contains("step2"));
    assert!(dot.contains("getUser"));
    assert!(dot.contains("GET"));
}

#[test]
fn test_export_json() {
    let graph = two_node_graph();
    let json = export_json(&graph).unwrap();
    match &json {
        JsonValue::Object(ms) => {
            let get = |k: &str| ms.iter().find(|m| m.0 == k).map(|m| &m.1).unwrap();
            match get("workflowId") {
                JsonValue::String(w) => assert_eq!(w, "test-workflow"),
                _ => panic!("workflowId"),
            }
            match get("nodes") {
                JsonValue::Array(a) => assert_eq!(a.len(), 2),
                _ => panic!("nodes"),
            }
            match get("edges") {
                JsonValue::Array(a) => assert_eq!(a.len(), 1),
                _ => panic!("edges"),
            }
            match get("stats") {
                JsonValue::Object(st) => {
                    assert!(st.iter().any(|m| m.0 == "nodeCount" && matches!(m.1, JsonValue::Number(JsonNumber::UInt(2)) | JsonValue::Number(JsonNumber::Int(2)))));
                    assert!(st.iter().any(|m| m.0 == "edgeCount" && matches!(m.1, JsonValue::Number(JsonNumber::UInt(1)) | JsonValue::Number(JsonNumber::Int(1)))));
                }
                _ => panic!("stats"),
            }
        }
        _ => panic!("expected an object"),
    }
}

#[test]
fn test_export_mermaid() {
    let graph = two_node_graph();
    let m = export_mermaid(&graph);
    assert!(m.starts_with("flowchart LR\n"));
    assert!(m.contains("step1"));
}

#[test]
fn topological_order_warnings() {
    let mut graph = FlowGraph::new(s("test"));
    let n1 = graph.add_node(node("step1", None, None, false, false));
    let n2 = graph.add_node(node("step2", None, None, false, false));
    graph.add_edge(n1, n2, FlowEdge::sequential());
    let r = validate_flow_graph(&graph).unwrap();
    assert!(r.errors.is_empty());
    assert_eq!(r.warnings, vec!["Topological order: step1 → step2".to_string()]);

    let mut single = FlowGraph::new(s("test"));
    let n = single.add_node(node("step1", None, None, false, true));
    single.add_edge(n, n, FlowEdge::conditional(s("condition")));
    let r = validate_flow_graph(&single).unwrap();
    assert!(r.errors.is_empty());
    assert_eq!(r.warnings, vec!["Topological order: step1".to_string()]);
}
