//! Rendering of flow graphs as Graphviz DOT, Mermaid and JSON.

use vstd::prelude::*;
use crate::error::HornetError;
use crate::graph::{EdgeType, FlowEdge, FlowGraph, FlowNode};
use crate::json::{member_value, Json, JsonNumber, JsonValue, view_items, view_members, lemma_view_items_len};
use crate::text::{decimal, decimal_u64, occurs_at, opt_view, replace_char, replace_char_spec, chars_of, seq_contains, string_of};

verus! {

/// The DOT label of a node: its step, operation and method on separate lines.
pub open spec fn dot_label(n: FlowNode) -> Seq<char> {
    let with_op = match n.operation_id {
        Some(op) => n.step_id@ + "\\n"@ + op@,
        None => n.step_id@,
    };
    match n.method {
        Some(m) => with_op + "\\n["@ + m@ + "]"@,
        None => with_op,
    }
}

/// The border colour of a node: orange with success criteria, blue with
/// outputs, black otherwise.
pub open spec fn node_color(n: FlowNode) -> Seq<char> {
    if n.has_success_criteria {
        "orange"@
    } else if n.has_outputs {
        "blue"@
    } else {
        "black"@
    }
}

/// The fill colour that goes with a border colour.
pub open spec fn fill_color(n: FlowNode) -> Seq<char> {
    if n.has_success_criteria {
        "lightyellow"@
    } else if n.has_outputs {
        "lightblue"@
    } else {
        "lightgray"@
    }
}

/// The DOT statement of a node.
pub open spec fn dot_node_line(n: FlowNode) -> Seq<char> {
    "  \""@ + n.step_id@ + "\" [label=\""@ + dot_label(n) + "\", color=\""@ + node_color(n)
        + "\", fillcolor=\""@ + fill_color(n) + "\", style=\"rounded,filled\"];\n"@
}

/// An optional text, or nothing.
pub open spec fn or_empty(o: Option<Seq<char>>) -> Seq<char> {
    match o {
        Some(s) => s,
        None => Seq::empty(),
    }
}

/// The DOT line style of an edge.
pub open spec fn edge_style(t: EdgeType) -> Seq<char> {
    match t {
        EdgeType::Sequential => "solid"@,
        EdgeType::Conditional => "dashed"@,
        EdgeType::DataDependency => "dotted"@,
        EdgeType::OnSuccess => "solid"@,
        EdgeType::OnFailure => "solid"@,
    }
}

/// The DOT colour of an edge.
pub open spec fn edge_color(t: EdgeType) -> Seq<char> {
    match t {
        EdgeType::Sequential => "black"@,
        EdgeType::Conditional => "orange"@,
        EdgeType::DataDependency => "blue"@,
        EdgeType::OnSuccess => "green"@,
        EdgeType::OnFailure => "red"@,
    }
}

/// The DOT label of an edge: the data reference of a data dependency, no
/// text for a sequential edge, the description otherwise.
pub open spec fn dot_edge_label(e: FlowEdge) -> Seq<char> {
    match e.edge_type {
        EdgeType::Sequential => Seq::empty(),
        EdgeType::DataDependency => or_empty(opt_view(e.data_ref)),
        _ => or_empty(opt_view(e.description)),
    }
}

/// The DOT statement of an edge between the named steps.
pub open spec fn dot_edge_line(source: Seq<char>, target: Seq<char>, e: FlowEdge) -> Seq<char> {
    "  \""@ + source + "\" -> \""@ + target + "\" [style=\""@ + edge_style(e.edge_type)
        + "\", color=\""@ + edge_color(e.edge_type) + "\", label=\""@ + dot_edge_label(e)
        + "\"];\n"@
}

/// The DOT statements of the first `k` nodes.
pub open spec fn dot_nodes_upto(g: FlowGraph, k: int) -> Seq<char>
    decreases k,
{
    if k <= 0 {
        Seq::empty()
    } else {
        dot_nodes_upto(g, k - 1) + dot_node_line(g.nodes()[k - 1])
    }
}

/// The DOT statements of the first `k` edges.
pub open spec fn dot_edges_upto(g: FlowGraph, k: int) -> Seq<char>
    decreases k,
{
    if k <= 0 {
        Seq::empty()
    } else {
        let e = g.edges()[k - 1];
        dot_edges_upto(g, k - 1) + dot_edge_line(
            g.nodes()[e.0 as int].step_id@,
            g.nodes()[e.1 as int].step_id@,
            e.2,
        )
    }
}

/// The DOT document of a flow graph.
pub open spec fn dot_text(g: FlowGraph) -> Seq<char> {
    "digraph \""@ + g.workflow_id@ + "\" {\n"@ + "  rankdir=LR;\n"@
        + "  node [shape=box, style=rounded];\n\n"@ + dot_nodes_upto(g, g.nodes().len() as int)
        + "\n"@ + dot_edges_upto(g, g.edges().len() as int) + "}\n"@
}

/// What occurs in a text occurs in any text that contains it.
proof fn lemma_occurs_within(a: Seq<char>, b: Seq<char>, c: Seq<char>, p: Seq<char>, i: int)
    requires
        occurs_at(b, p, i),
    ensures
        occurs_at(a + b + c, p, a.len() + i),
{
    assert((a + b + c).subrange(a.len() + i, a.len() + i + p.len()) =~= b.subrange(i, i + p.len()));
}

/// The first `n` edge statements hold the statement of each edge `k < n`.
proof fn lemma_edge_statement_present(g: FlowGraph, n: int, k: int)
    requires
        0 <= k < n <= g.edges().len(),
    ensures
        exists|i: int| occurs_at(
            dot_edges_upto(g, n),
            dot_edge_line(
                g.nodes()[g.edges()[k].0 as int].step_id@,
                g.nodes()[g.edges()[k].1 as int].step_id@,
                g.edges()[k].2,
            ),
            i,
        ),
    decreases n,
{
    let line = dot_edge_line(
        g.nodes()[g.edges()[k].0 as int].step_id@,
        g.nodes()[g.edges()[k].1 as int].step_id@,
        g.edges()[k].2,
    );
    let prev = dot_edges_upto(g, n - 1);
    if k == n - 1 {
        assert(line.subrange(0, line.len() as int) =~= line);
        lemma_occurs_within(prev, line, Seq::empty(), line, 0);
        assert(prev + line + Seq::<char>::empty() =~= dot_edges_upto(g, n));
        assert(occurs_at(dot_edges_upto(g, n), line, prev.len() as int));
    } else {
        lemma_edge_statement_present(g, n - 1, k);
        let i = choose|i: int| occurs_at(prev, line, i);
        let rest = dot_edges_upto(g, n).subrange(prev.len() as int, dot_edges_upto(g, n).len() as int);
        lemma_occurs_within(Seq::empty(), prev, rest, line, i);
        assert(Seq::<char>::empty() + prev + rest =~= dot_edges_upto(g, n));
        assert(occurs_at(dot_edges_upto(g, n), line, i));
    }
}

/// A prefix of what occurs at `i` occurs there too.
proof fn lemma_prefix_occurs(s: Seq<char>, p: Seq<char>, q: Seq<char>, i: int)
    requires
        occurs_at(s, p, i),
        q.len() <= p.len(),
        p.subrange(0, q.len() as int) == q,
    ensures
        occurs_at(s, q, i),
{
    assert(s.subrange(i, i + q.len()) =~= p.subrange(0, q.len() as int));
}

/// The text that opens an edge statement: `"<source>" -> "<target>" [`.
pub open spec fn edge_opening(source: Seq<char>, target: Seq<char>) -> Seq<char> {
    "  \""@ + source + "\" -> \""@ + target + "\" ["@
}

/// An edge statement opens with its source and target in that order.
proof fn lemma_edge_line_opening(source: Seq<char>, target: Seq<char>, e: FlowEdge)
    ensures
        edge_opening(source, target).len() <= dot_edge_line(source, target, e).len(),
        dot_edge_line(source, target, e).subrange(0, edge_opening(source, target).len() as int)
            == edge_opening(source, target),
{
    reveal_strlit("\" [");
    reveal_strlit("\" [style=\"");
    let line = dot_edge_line(source, target, e);
    let open = edge_opening(source, target);
    let common = "  \""@ + source + "\" -> \""@ + target;
    assert(open =~= common + "\" ["@);
    assert(line.subrange(0, common.len() as int) =~= common);
    assert(line.subrange(0, open.len() as int) =~= open);
}

/// The DOT text holds the edge statements after the header and nodes.
proof fn lemma_dot_text_parts(g: FlowGraph)
    ensures
        exists|head: Seq<char>, tail: Seq<char>| dot_text(g) == head + dot_edges_upto(g, g.edges().len() as int) + tail,
{
    let head = "digraph \""@ + g.workflow_id@ + "\" {\n"@ + "  rankdir=LR;\n"@
        + "  node [shape=box, style=rounded];\n\n"@ + dot_nodes_upto(g, g.nodes().len() as int) + "\n"@;
    let tail = "}\n"@;
    assert(dot_text(g) == head + dot_edges_upto(g, g.edges().len() as int) + tail);
}

/// Every edge is drawn in its own direction: for each edge from node `a`
/// to node `b`, the DOT text holds a statement from the step ID of `a` to
/// the step ID of `b`.
pub proof fn law_dot_edges_keep_their_direction(g: FlowGraph, k: int)
    requires
        0 <= k < g.edges().len(),
    ensures
        seq_contains(
            dot_text(g),
            edge_opening(g.nodes()[g.edges()[k].0 as int].step_id@, g.nodes()[g.edges()[k].1 as int].step_id@),
        ),
{
    let src = g.nodes()[g.edges()[k].0 as int].step_id@;
    let tgt = g.nodes()[g.edges()[k].1 as int].step_id@;
    let line = dot_edge_line(src, tgt, g.edges()[k].2);
    lemma_edge_statement_present(g, g.edges().len() as int, k);
    let edges = dot_edges_upto(g, g.edges().len() as int);
    let i = choose|i: int| occurs_at(edges, line, i);
    lemma_dot_text_parts(g);
    let (head, tail) = choose|head: Seq<char>, tail: Seq<char>| dot_text(g) == head + edges + tail;
    lemma_occurs_within(head, edges, tail, line, i);
    lemma_edge_line_opening(src, tgt, g.edges()[k].2);
    lemma_prefix_occurs(dot_text(g), line, edge_opening(src, tgt), head.len() + i);
}

/// A step ID as a Mermaid node name: hyphens become underscores.
pub open spec fn mermaid_id(id: Seq<char>) -> Seq<char> {
    replace_char_spec(id, '-', "_"@)
}

/// The Mermaid label of a node.
pub open spec fn mermaid_label(n: FlowNode) -> Seq<char> {
    let with_op = match n.operation_id {
        Some(op) => n.step_id@ + "<br/>"@ + op@,
        None => n.step_id@,
    };
    match n.method {
        Some(m) => with_op + "<br/>["@ + m@ + "]"@,
        None => with_op,
    }
}

/// The opening bracket of a node's Mermaid shape.
pub open spec fn mermaid_open(n: FlowNode) -> Seq<char> {
    if n.has_success_criteria {
        "("@
    } else if n.has_outputs {
        "(["@
    } else {
        "["@
    }
}

/// The Mermaid line of a node.
pub open spec fn mermaid_node_line(n: FlowNode) -> Seq<char> {
    "  "@ + mermaid_id(n.step_id@) + mermaid_open(n) + mermaid_label(n) + "]\n"@
}

/// The Mermaid arrow of an edge.
pub open spec fn mermaid_arrow(t: EdgeType) -> Seq<char> {
    match t {
        EdgeType::Sequential => "-->"@,
        EdgeType::Conditional => "-.->"@,
        EdgeType::DataDependency => "==>"@,
        EdgeType::OnSuccess => "==>"@,
        EdgeType::OnFailure => "-.->"@,
    }
}

/// The Mermaid label of an edge, if it has one.
pub open spec fn mermaid_edge_label(e: FlowEdge) -> Option<Seq<char>> {
    match e.edge_type {
        EdgeType::Sequential => None,
        EdgeType::DataDependency => opt_view(e.data_ref),
        _ => opt_view(e.description),
    }
}

/// The Mermaid line of an edge between the named steps.
pub open spec fn mermaid_edge_line(source: Seq<char>, target: Seq<char>, e: FlowEdge) -> Seq<char> {
    match mermaid_edge_label(e) {
        Some(l) => "  "@ + mermaid_id(source) + " "@ + mermaid_arrow(e.edge_type) + "|"@ + l + "| "@
            + mermaid_id(target) + "\n"@,
        None => "  "@ + mermaid_id(source) + " "@ + mermaid_arrow(e.edge_type) + " "@ + mermaid_id(
            target,
        ) + "\n"@,
    }
}

/// The Mermaid lines of the first `k` nodes.
pub open spec fn mermaid_nodes_upto(g: FlowGraph, k: int) -> Seq<char>
    decreases k,
{
    if k <= 0 {
        Seq::empty()
    } else {
        mermaid_nodes_upto(g, k - 1) + mermaid_node_line(g.nodes()[k - 1])
    }
}

/// The Mermaid lines of the first `k` edges.
pub open spec fn mermaid_edges_upto(g: FlowGraph, k: int) -> Seq<char>
    decreases k,
{
    if k <= 0 {
        Seq::empty()
    } else {
        let e = g.edges()[k - 1];
        mermaid_edges_upto(g, k - 1) + mermaid_edge_line(
            g.nodes()[e.0 as int].step_id@,
            g.nodes()[e.1 as int].step_id@,
            e.2,
        )
    }
}

/// The Mermaid flowchart of a flow graph.
pub open spec fn mermaid_text(g: FlowGraph) -> Seq<char> {
    "flowchart LR\n"@ + mermaid_nodes_upto(g, g.nodes().len() as int) + "\n"@ + mermaid_edges_upto(
        g,
        g.edges().len() as int,
    )
}

/// The JSON form of an optional string: the string, or null.
pub open spec fn json_opt(o: Option<String>) -> Json {
    match o {
        Some(s) => Json::Str(s@),
        None => Json::Null,
    }
}

/// The JSON object of a node, members in key order.
pub open spec fn node_json(n: FlowNode) -> Json {
    Json::Object(seq![
        ("description"@, json_opt(n.description)),
        ("hasOutputs"@, Json::Bool(n.has_outputs)),
        ("hasSuccessCriteria"@, Json::Bool(n.has_success_criteria)),
        ("id"@, Json::Str(n.step_id@)),
        ("method"@, json_opt(n.method)),
        ("operationId"@, json_opt(n.operation_id)),
        ("operationPath"@, json_opt(n.operation_path)),
    ])
}

/// The name of an edge type.
pub open spec fn edge_type_name(t: EdgeType) -> Seq<char> {
    match t {
        EdgeType::Sequential => "Sequential"@,
        EdgeType::Conditional => "Conditional"@,
        EdgeType::DataDependency => "DataDependency"@,
        EdgeType::OnSuccess => "OnSuccess"@,
        EdgeType::OnFailure => "OnFailure"@,
    }
}

/// The JSON object of an edge between the named steps, members in key order.
pub open spec fn edge_json(source: Seq<char>, target: Seq<char>, e: FlowEdge) -> Json {
    Json::Object(seq![
        ("dataRef"@, json_opt(e.data_ref)),
        ("description"@, json_opt(e.description)),
        ("edge_type"@, Json::Str(edge_type_name(e.edge_type))),
        ("source"@, Json::Str(source)),
        ("target"@, Json::Str(target)),
    ])
}

/// A count as a JSON number.
pub open spec fn json_count(n: nat) -> Json {
    Json::Number(true, decimal(n))
}

/// The JSON document of a flow graph, members in key order.
pub open spec fn graph_json(g: FlowGraph) -> Json {
    Json::Object(seq![
        ("edges"@, Json::Array(Seq::new(g.edges().len(), |k: int| edge_json(
            g.nodes()[g.edges()[k].0 as int].step_id@,
            g.nodes()[g.edges()[k].1 as int].step_id@,
            g.edges()[k].2,
        )))),
        ("nodes"@, Json::Array(Seq::new(g.nodes().len(), |i: int| node_json(g.nodes()[i])))),
        ("stats"@, Json::Object(seq![
            ("edgeCount"@, json_count(g.edges().len())),
            ("nodeCount"@, json_count(g.nodes().len())),
        ])),
        ("workflowId"@, Json::Str(g.workflow_id@)),
    ])
}

/// The first `n` Mermaid edge lines hold the line of each edge `k < n`.
proof fn lemma_mermaid_edge_present(g: FlowGraph, n: int, k: int)
    requires
        0 <= k < n <= g.edges().len(),
    ensures
        exists|i: int| occurs_at(
            mermaid_edges_upto(g, n),
            mermaid_edge_line(
                g.nodes()[g.edges()[k].0 as int].step_id@,
                g.nodes()[g.edges()[k].1 as int].step_id@,
                g.edges()[k].2,
            ),
            i,
        ),
    decreases n,
{
    let line = mermaid_edge_line(
        g.nodes()[g.edges()[k].0 as int].step_id@,
        g.nodes()[g.edges()[k].1 as int].step_id@,
        g.edges()[k].2,
    );
    let prev = mermaid_edges_upto(g, n - 1);
    if k == n - 1 {
        assert(line.subrange(0, line.len() as int) =~= line);
        lemma_occurs_within(prev, line, Seq::empty(), line, 0);
        assert(prev + line + Seq::<char>::empty() =~= mermaid_edges_upto(g, n));
    } else {
        lemma_mermaid_edge_present(g, n - 1, k);
        let i = choose|i: int| occurs_at(prev, line, i);
        let rest = mermaid_edges_upto(g, n).subrange(prev.len() as int, mermaid_edges_upto(g, n).len() as int);
        lemma_occurs_within(Seq::empty(), prev, rest, line, i);
        assert(Seq::<char>::empty() + prev + rest =~= mermaid_edges_upto(g, n));
    }
}

/// The Mermaid line from `source` to `target`: the source's name, the
/// arrow (with the label, if any), then the target's name.
pub open spec fn mermaid_from_to(source: Seq<char>, target: Seq<char>, arrow: Seq<char>, label: Option<Seq<char>>) -> Seq<char> {
    match label {
        Some(l) => "  "@ + mermaid_id(source) + " "@ + arrow + "|"@ + l + "| "@ + mermaid_id(target) + "\n"@,
        None => "  "@ + mermaid_id(source) + " "@ + arrow + " "@ + mermaid_id(target) + "\n"@,
    }
}

/// Every edge keeps its direction in Mermaid: the flowchart holds a line
/// from the source step's name to the target step's name.
pub proof fn law_mermaid_edges_keep_their_direction(g: FlowGraph, k: int)
    requires
        0 <= k < g.edges().len(),
    ensures
        seq_contains(
            mermaid_text(g),
            mermaid_from_to(
                g.nodes()[g.edges()[k].0 as int].step_id@,
                g.nodes()[g.edges()[k].1 as int].step_id@,
                mermaid_arrow(g.edges()[k].2.edge_type),
                mermaid_edge_label(g.edges()[k].2),
            ),
        ),
{
    let src = g.nodes()[g.edges()[k].0 as int].step_id@;
    let tgt = g.nodes()[g.edges()[k].1 as int].step_id@;
    let e = g.edges()[k].2;
    let line = mermaid_edge_line(src, tgt, e);
    assert(line == mermaid_from_to(src, tgt, mermaid_arrow(e.edge_type), mermaid_edge_label(e)));
    lemma_mermaid_edge_present(g, g.edges().len() as int, k);
    let edges = mermaid_edges_upto(g, g.edges().len() as int);
    let i = choose|i: int| occurs_at(edges, line, i);
    let head = "flowchart LR\n"@ + mermaid_nodes_upto(g, g.nodes().len() as int) + "\n"@;
    lemma_occurs_within(head, edges, Seq::empty(), line, i);
    assert(head + edges + Seq::<char>::empty() =~= mermaid_text(g));
    assert(occurs_at(mermaid_text(g), line, head.len() + i));
}

/// Every edge keeps its direction in JSON: edge `k` names the step of its
/// source node as `source` and that of its target node as `target`.
pub proof fn law_json_edges_keep_their_direction(g: FlowGraph, k: int)
    requires
        0 <= k < g.edges().len(),
    ensures
        graph_json(g).member("edges"@) matches Some(Json::Array(es)) && es.len() == g.edges().len()
            && es[k].member("source"@) == Some(Json::Str(g.nodes()[g.edges()[k].0 as int].step_id@))
            && es[k].member("target"@) == Some(Json::Str(g.nodes()[g.edges()[k].1 as int].step_id@)),
{
    reveal_strlit("edges");
    reveal_strlit("dataRef");
    reveal_strlit("description");
    reveal_strlit("edge_type");
    reveal_strlit("source");
    reveal_strlit("target");
    assert("source"@[0] != "target"@[0]);
    let src = g.nodes()[g.edges()[k].0 as int].step_id@;
    let tgt = g.nodes()[g.edges()[k].1 as int].step_id@;
    let e = g.edges()[k].2;
    let members = seq![
        ("dataRef"@, json_opt(e.data_ref)),
        ("description"@, json_opt(e.description)),
        ("edge_type"@, Json::Str(edge_type_name(e.edge_type))),
        ("source"@, Json::Str(src)),
        ("target"@, Json::Str(tgt)),
    ];
    assert(members.drop_first() =~= seq![members[1], members[2], members[3], members[4]]);
    assert(members.drop_first().drop_first() =~= seq![members[2], members[3], members[4]]);
    assert(members.drop_first().drop_first().drop_first() =~= seq![members[3], members[4]]);
    assert(members.drop_first().drop_first().drop_first().drop_first() =~= seq![members[4]]);
    assert("dataRef"@.len() == 7);
    assert("description"@.len() == 11);
    assert("edge_type"@.len() == 9);
    assert("source"@.len() == 6);
    assert("target"@.len() == 6);
    let m1 = members.drop_first();
    let m2 = m1.drop_first();
    let m3 = m2.drop_first();
    let m4 = m3.drop_first();
    assert(m3[0].0 == "source"@);
    assert(member_value(m3, "source"@) == Some(Json::Str(src)));
    assert(member_value(m2, "source"@) == member_value(m3, "source"@));
    assert(member_value(m1, "source"@) == member_value(m2, "source"@));
    assert(member_value(members, "source"@) == member_value(m1, "source"@));
    assert(m4[0].0 == "target"@);
    assert(member_value(m4, "target"@) == Some(Json::Str(tgt)));
    assert(member_value(m3, "target"@) == member_value(m4, "target"@));
    assert(member_value(m2, "target"@) == member_value(m3, "target"@));
    assert(member_value(m1, "target"@) == member_value(m2, "target"@));
    assert(member_value(members, "target"@) == member_value(m1, "target"@));
    assert(edge_json(src, tgt, e) == Json::Object(members));
    let top = seq![
        ("edges"@, Json::Array(Seq::new(g.edges().len(), |j: int| edge_json(
            g.nodes()[g.edges()[j].0 as int].step_id@,
            g.nodes()[g.edges()[j].1 as int].step_id@,
            g.edges()[j].2,
        )))),
        ("nodes"@, Json::Array(Seq::new(g.nodes().len(), |i: int| node_json(g.nodes()[i])))),
        ("stats"@, Json::Object(seq![
            ("edgeCount"@, json_count(g.edges().len())),
            ("nodeCount"@, json_count(g.nodes().len())),
        ])),
        ("workflowId"@, Json::Str(g.workflow_id@)),
    ];
    assert(graph_json(g) == Json::Object(top));
    assert(member_value(top, "edges"@) == Some(top[0].1));
}

/// Exporter for flow graphs.
pub struct FlowGraphExporter<'a> {
    graph: &'a FlowGraph,
}

/// Copies an optional string into a JSON value.
fn opt_json(o: &Option<String>) -> (j: JsonValue)
    ensures
        j@ == json_opt(*o),
{
    match o {
        Some(s) => JsonValue::String(s.clone()),
        None => JsonValue::Null,
    }
}

/// A count as a JSON number.
fn count_json(n: usize) -> (j: JsonValue)
    requires
        n < u32::MAX,
    ensures
        j@ == json_count(n as nat),
{
    let v = JsonValue::Number(JsonNumber::Int(n as i64));
    assert(crate::text::decimal_int(n as int) == decimal(n as nat));
    v
}

/// A JSON object of the given members.
fn object(members: Vec<(String, JsonValue)>) -> (j: JsonValue)
    ensures
        j@ == Json::Object(view_members(members@)),
{
    JsonValue::Object(members)
}

impl<'a> FlowGraphExporter<'a> {
    /// The graph exported.
    pub closed spec fn spec_graph(&self) -> &'a FlowGraph {
        self.graph
    }

    /// An exporter for the given graph.
    pub fn new(graph: &'a FlowGraph) -> (e: Self)
        ensures
            e.spec_graph() == graph,
    {
        FlowGraphExporter { graph }
    }

    /// The DOT label of a node.
    fn format_node_label(node: &FlowNode) -> (s: String)
        ensures
            s@ == dot_label(*node),
    {
        let mut label = node.step_id.clone();
        match &node.operation_id {
            Some(op) => {
                label.append("\\n");
                label.append(op.as_str());
            },
            None => {},
        }
        match &node.method {
            Some(m) => {
                label.append("\\n[");
                label.append(m.as_str());
                label.append("]");
            },
            None => {},
        }
        label
    }

    /// The border and fill colours of a node.
    fn node_colors(node: &FlowNode) -> (r: (&'static str, &'static str))
        ensures
            r.0@ == node_color(*node),
            r.1@ == fill_color(*node),
    {
        if node.has_success_criteria {
            ("orange", "lightyellow")
        } else if node.has_outputs {
            ("blue", "lightblue")
        } else {
            ("black", "lightgray")
        }
    }

    /// The DOT style, colour and label of an edge.
    fn format_edge_style(edge: &FlowEdge) -> (r: (&'static str, &'static str, String))
        ensures
            r.0@ == edge_style(edge.edge_type),
            r.1@ == edge_color(edge.edge_type),
            r.2@ == dot_edge_label(*edge),
    {
        let text = |o: &Option<String>| -> (s: String)
            ensures s@ == or_empty(opt_view(*o)),
            {
                match o {
                    Some(t) => t.clone(),
                    None => String::new(),
                }
            };
        match edge.edge_type {
            EdgeType::Sequential => ("solid", "black", String::new()),
            EdgeType::Conditional => ("dashed", "orange", text(&edge.description)),
            EdgeType::DataDependency => ("dotted", "blue", text(&edge.data_ref)),
            EdgeType::OnSuccess => ("solid", "green", text(&edge.description)),
            EdgeType::OnFailure => ("solid", "red", text(&edge.description)),
        }
    }

    /// The graph as a Graphviz DOT document.
    pub fn export_dot(&self) -> (s: String)
        requires
            self.spec_graph().wf(),
        ensures
            s@ == dot_text(*self.spec_graph()),
    {
        let g = self.graph;
        let n = g.node_count();
        let m = g.edge_count();
        let mut dot = String::from_str("digraph \"");
        dot.append(g.workflow_id.as_str());
        dot.append("\" {\n");
        dot.append("  rankdir=LR;\n");
        dot.append("  node [shape=box, style=rounded];\n\n");
        let ghost head = dot@;
        let mut i: usize = 0;
        while i < n
            invariant
                n == g.nodes().len(),
                i <= n,
                dot@ == head + dot_nodes_upto(*g, i as int),
            decreases n - i,
        {
            let node = g.node(i);
            let label = Self::format_node_label(node);
            let (color, fill) = Self::node_colors(node);
            let mut line = String::from_str("  \"");
            line.append(node.step_id.as_str());
            line.append("\" [label=\"");
            line.append(label.as_str());
            line.append("\", color=\"");
            line.append(color);
            line.append("\", fillcolor=\"");
            line.append(fill);
            line.append("\", style=\"rounded,filled\"];\n");
            dot.append(line.as_str());
            i = i + 1;
        }
        dot.append("\n");
        let ghost mid = dot@;
        let mut k: usize = 0;
        while k < m
            invariant
                g.wf(),
                n == g.nodes().len(),
                m == g.edges().len(),
                k <= m,
                dot@ == mid + dot_edges_upto(*g, k as int),
            decreases m - k,
        {
            let (a, b, edge) = g.edge(k);
            assert(g.edges()[k as int].0 < n);
            let source = &g.node(a).step_id;
            let target = &g.node(b).step_id;
            let (style, color, label) = Self::format_edge_style(edge);
            let mut line = String::from_str("  \"");
            line.append(source.as_str());
            line.append("\" -> \"");
            line.append(target.as_str());
            line.append("\" [style=\"");
            line.append(style);
            line.append("\", color=\"");
            line.append(color);
            line.append("\", label=\"");
            line.append(label.as_str());
            line.append("\"];\n");
            dot.append(line.as_str());
            k = k + 1;
        }
        dot.append("}\n");
        dot
    }

    /// The Mermaid label of a node.
    fn format_mermaid_node_label(node: &FlowNode) -> (s: String)
        ensures
            s@ == mermaid_label(*node),
    {
        let mut label = node.step_id.clone();
        match &node.operation_id {
            Some(op) => {
                label.append("<br/>");
                label.append(op.as_str());
            },
            None => {},
        }
        match &node.method {
            Some(m) => {
                label.append("<br/>[");
                label.append(m.as_str());
                label.append("]");
            },
            None => {},
        }
        label
    }

    /// A step ID as a Mermaid node name.
    fn mermaid_name(id: &String) -> (s: String)
        ensures
            s@ == mermaid_id(id@),
    {
        let c = chars_of(id.as_str());
        let u = chars_of("_");
        let r = replace_char(c.as_slice(), '-', u.as_slice());
        string_of(r.as_slice())
    }

    /// The graph as a Mermaid flowchart.
    pub fn export_mermaid(&self) -> (s: String)
        requires
            self.spec_graph().wf(),
        ensures
            s@ == mermaid_text(*self.spec_graph()),
    {
        let g = self.graph;
        let n = g.node_count();
        let m = g.edge_count();
        let mut out = String::from_str("flowchart LR\n");
        let ghost head = out@;
        let mut i: usize = 0;
        while i < n
            invariant
                n == g.nodes().len(),
                i <= n,
                out@ == head + mermaid_nodes_upto(*g, i as int),
            decreases n - i,
        {
            let node = g.node(i);
            let label = Self::format_mermaid_node_label(node);
            let open = if node.has_success_criteria {
                "("
            } else if node.has_outputs {
                "(["
            } else {
                "["
            };
            assert(open@ == mermaid_open(*node));
            let mut line = String::from_str("  ");
            line.append(Self::mermaid_name(&node.step_id).as_str());
            line.append(open);
            line.append(label.as_str());
            line.append("]\n");
            out.append(line.as_str());
            i = i + 1;
        }
        out.append("\n");
        let ghost mid = out@;
        let mut k: usize = 0;
        while k < m
            invariant
                g.wf(),
                n == g.nodes().len(),
                m == g.edges().len(),
                k <= m,
                out@ == mid + mermaid_edges_upto(*g, k as int),
            decreases m - k,
        {
            let (a, b, edge) = g.edge(k);
            assert(g.edges()[k as int].0 < n);
            let source = Self::mermaid_name(&g.node(a).step_id);
            let target = Self::mermaid_name(&g.node(b).step_id);
            let arrow = match edge.edge_type {
                EdgeType::Sequential => "-->",
                EdgeType::Conditional => "-.->",
                EdgeType::DataDependency => "==>",
                EdgeType::OnSuccess => "==>",
                EdgeType::OnFailure => "-.->",
            };
            assert(arrow@ == mermaid_arrow(edge.edge_type));
            let label: Option<&String> = match edge.edge_type {
                EdgeType::Sequential => None,
                EdgeType::DataDependency => edge.data_ref.as_ref(),
                _ => edge.description.as_ref(),
            };
            let mut line = String::from_str("  ");
            line.append(source.as_str());
            line.append(" ");
            line.append(arrow);
            match label {
                Some(l) => {
                    assert(mermaid_edge_label(*edge) == Some(l@));
                    line.append("|");
                    line.append(l.as_str());
                    line.append("| ");
                },
                None => {
                    assert(mermaid_edge_label(*edge) is None);
                    line.append(" ");
                },
            }
            line.append(target.as_str());
            line.append("\n");
            out.append(line.as_str());
            k = k + 1;
        }
        out
    }

    /// The JSON object of a node.
    fn node_value(node: &FlowNode) -> (j: JsonValue)
        ensures
            j@ == node_json(*node),
    {
        let mut members: Vec<(String, JsonValue)> = Vec::new();
        members.push((String::from_str("description"), opt_json(&node.description)));
        members.push((String::from_str("hasOutputs"), JsonValue::Bool(node.has_outputs)));
        members.push((String::from_str("hasSuccessCriteria"), JsonValue::Bool(node.has_success_criteria)));
        members.push((String::from_str("id"), JsonValue::String(node.step_id.clone())));
        members.push((String::from_str("method"), opt_json(&node.method)));
        members.push((String::from_str("operationId"), opt_json(&node.operation_id)));
        members.push((String::from_str("operationPath"), opt_json(&node.operation_path)));
        let j = object(members);
        proof { reveal_with_fuel(view_members, 8); }
        assert(view_members(members@) =~= seq![
            ("description"@, json_opt(node.description)),
            ("hasOutputs"@, Json::Bool(node.has_outputs)),
            ("hasSuccessCriteria"@, Json::Bool(node.has_success_criteria)),
            ("id"@, Json::Str(node.step_id@)),
            ("method"@, json_opt(node.method)),
            ("operationId"@, json_opt(node.operation_id)),
            ("operationPath"@, json_opt(node.operation_path)),
        ]);
        j
    }

    /// The name of an edge type.
    fn edge_type_text(t: EdgeType) -> (s: String)
        ensures
            s@ == edge_type_name(t),
    {
        match t {
            EdgeType::Sequential => String::from_str("Sequential"),
            EdgeType::Conditional => String::from_str("Conditional"),
            EdgeType::DataDependency => String::from_str("DataDependency"),
            EdgeType::OnSuccess => String::from_str("OnSuccess"),
            EdgeType::OnFailure => String::from_str("OnFailure"),
        }
    }

    /// The JSON object of an edge between the named steps.
    fn edge_value(source: &String, target: &String, edge: &FlowEdge) -> (j: JsonValue)
        ensures
            j@ == edge_json(source@, target@, *edge),
    {
        let mut members: Vec<(String, JsonValue)> = Vec::new();
        members.push((String::from_str("dataRef"), opt_json(&edge.data_ref)));
        members.push((String::from_str("description"), opt_json(&edge.description)));
        members.push((String::from_str("edge_type"), JsonValue::String(Self::edge_type_text(edge.edge_type))));
        members.push((String::from_str("source"), JsonValue::String(source.clone())));
        members.push((String::from_str("target"), JsonValue::String(target.clone())));
        let j = object(members);
        proof { reveal_with_fuel(view_members, 6); }
        assert(view_members(members@) =~= seq![
            ("dataRef"@, json_opt(edge.data_ref)),
            ("description"@, json_opt(edge.description)),
            ("edge_type"@, Json::Str(edge_type_name(edge.edge_type))),
            ("source"@, Json::Str(source@)),
            ("target"@, Json::Str(target@)),
        ]);
        j
    }

    /// The graph as a JSON document.
    pub fn export_json(&self) -> (r: Result<JsonValue, HornetError>)
        requires
            self.spec_graph().wf(),
        ensures
            r matches Ok(j) && j@ == graph_json(*self.spec_graph()),
    {
        let g = self.graph;
        let n = g.node_count();
        let m = g.edge_count();
        let mut nodes: Vec<JsonValue> = Vec::new();
        let mut i: usize = 0;
        while i < n
            invariant
                n == g.nodes().len(),
                i <= n,
                view_items(nodes@) =~= Seq::new(i as nat, |x: int| node_json(g.nodes()[x])),
            decreases n - i,
        {
            let ghost before = nodes@;
            nodes.push(Self::node_value(g.node(i)));
            assert(nodes@.drop_last() == before);
            i = i + 1;
        }
        let mut edges: Vec<JsonValue> = Vec::new();
        let mut k: usize = 0;
        while k < m
            invariant
                g.wf(),
                n == g.nodes().len(),
                m == g.edges().len(),
                k <= m,
                view_items(edges@) =~= Seq::new(k as nat, |x: int| edge_json(
                    g.nodes()[g.edges()[x].0 as int].step_id@,
                    g.nodes()[g.edges()[x].1 as int].step_id@,
                    g.edges()[x].2,
                )),
            decreases m - k,
        {
            let (a, b, edge) = g.edge(k);
            assert(g.edges()[k as int].0 < n);
            let ghost before = edges@;
            edges.push(Self::edge_value(&g.node(a).step_id, &g.node(b).step_id, edge));
            assert(edges@.drop_last() == before);
            k = k + 1;
        }
        let mut stats: Vec<(String, JsonValue)> = Vec::new();
        stats.push((String::from_str("edgeCount"), count_json(m)));
        stats.push((String::from_str("nodeCount"), count_json(n)));
        let mut root: Vec<(String, JsonValue)> = Vec::new();
        root.push((String::from_str("edges"), JsonValue::Array(edges)));
        root.push((String::from_str("nodes"), JsonValue::Array(nodes)));
        root.push((String::from_str("stats"), object(stats)));
        root.push((String::from_str("workflowId"), JsonValue::String(g.workflow_id.clone())));
        proof { reveal_with_fuel(view_members, 5); }
        assert(view_members(stats@) =~= seq![
            ("edgeCount"@, json_count(m as nat)),
            ("nodeCount"@, json_count(n as nat)),
        ]);
        let j = object(root);
        assert(view_members(root@) =~= graph_json(*g)->Object_0);
        Ok(j)
    }
}

/// The graph as a Graphviz DOT document.
pub fn export_dot(graph: &FlowGraph) -> (s: String)
    requires
        graph.wf(),
    ensures
        s@ == dot_text(*graph),
{
    FlowGraphExporter::new(graph).export_dot()
}

/// The graph as a JSON document.
pub fn export_json(graph: &FlowGraph) -> (r: Result<JsonValue, HornetError>)
    requires
        graph.wf(),
    ensures
        r matches Ok(j) && j@ == graph_json(*graph),
{
    FlowGraphExporter::new(graph).export_json()
}

/// The graph as a Mermaid flowchart.
pub fn export_mermaid(graph: &FlowGraph) -> (s: String)
    requires
        graph.wf(),
    ensures
        s@ == mermaid_text(*graph),
{
    FlowGraphExporter::new(graph).export_mermaid()
}

} // verus!
