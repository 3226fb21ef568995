//! What hovering over an identifier of an Arazzo document shows.

use vstd::prelude::*;
use crate::loader::openapi_resolver::{first_operation_hit, hit_operation, refers_to_hit, OpenApiResolver};
use crate::lsp::document::{identifier_index, IdentifierKind, PositionMap, Position, Range};
use crate::models::arazzo::{ArazzoSpec, Step, Workflow};
use crate::text::{decimal, decimal_u64, str_eq, to_uppercase, uppercase};

verus! {

/// What a hover shows: Markdown, or plain text.
pub enum HoverContents {
    Markdown(String),
    Plain(String),
}

/// A hover: what it shows, over which range.
pub struct Hover {
    pub contents: HoverContents,
    pub range: Option<Range>,
}

/// The text, or nothing.
pub open spec fn or_empty(o: Option<String>) -> Seq<char> {
    match o {
        Some(s) => s@,
        None => Seq::empty(),
    }
}

/// The Markdown for an operation: identifier, method and path, then the
/// description after the summary when there is a description, else the
/// summary when there is one.
pub open spec fn operation_markdown(id: Seq<char>, method: Seq<char>, path: Seq<char>, summary: Seq<char>, description: Seq<char>) -> Seq<char> {
    let head = "**Operation**: `"@ + id + "`\n\n**Method**: "@ + method + "\n\n**Path**: `"@ + path + "`"@;
    if description.len() > 0 {
        head + "\n\n**Summary**: "@ + summary + "\n\n"@ + description
    } else if summary.len() > 0 {
        head + "\n\n"@ + summary
    } else {
        head
    }
}

/// The Markdown for a workflow: identifier, description, number of steps.
pub open spec fn workflow_markdown(w: Workflow) -> Seq<char> {
    "**Workflow**: `"@ + w.workflow_id@ + "`\n\n"@ + (match w.description {
        Some(d) => d@ + "\n\n"@,
        None => Seq::empty(),
    }) + "**Steps**: "@ + decimal(w.steps@.len())
}

/// The Markdown for a step: identifier, description, and its operation
/// identifier or else its operation path.
pub open spec fn step_markdown(s: Step) -> Seq<char> {
    "**Step**: `"@ + s.step_id@ + "`\n\n"@ + (match s.description {
        Some(d) => d@ + "\n\n"@,
        None => Seq::empty(),
    }) + (match s.operation_id {
        Some(o) => "**Operation**: `"@ + o@ + "`"@,
        None => match s.operation_path {
            Some(p) => "**Operation Path**: `"@ + p@ + "`"@,
            None => Seq::empty(),
        },
    })
}

/// The first workflow with this identifier.
pub open spec fn workflow_with_id(ws: Seq<Workflow>, id: Seq<char>, from: int) -> Option<int>
    decreases ws.len() - from,
{
    if from < 0 || from >= ws.len() {
        None
    } else if ws[from].workflow_id@ == id {
        Some(from)
    } else {
        workflow_with_id(ws, id, from + 1)
    }
}

/// The first step with this identifier.
pub open spec fn step_with_id(ss: Seq<Step>, id: Seq<char>, from: int) -> Option<int>
    decreases ss.len() - from,
{
    if from < 0 || from >= ss.len() {
        None
    } else if ss[from].step_id@ == id {
        Some(from)
    } else {
        step_with_id(ss, id, from + 1)
    }
}

/// The first step with this identifier in the first workflow that has one.
pub open spec fn step_in_workflows(ws: Seq<Workflow>, id: Seq<char>, from: int) -> Option<(int, int)>
    decreases ws.len() - from,
{
    if from < 0 || from >= ws.len() {
        None
    } else {
        match step_with_id(ws[from].steps@, id, 0) {
            Some(j) => Some((from, j)),
            None => step_in_workflows(ws, id, from + 1),
        }
    }
}

/// A hover over `range` showing this Markdown.
pub open spec fn markdown_hover(h: Option<Hover>, range: Range, text: Seq<char>) -> bool {
    match h {
        Some(x) => x.range == Some(range) && match x.contents {
            HoverContents::Markdown(t) => t@ == text,
            HoverContents::Plain(_) => false,
        },
        None => false,
    }
}

/// A hover over `range` showing this plain text.
pub open spec fn plain_hover(h: Option<Hover>, range: Range, text: Seq<char>) -> bool {
    match h {
        Some(x) => x.range == Some(range) && match x.contents {
            HoverContents::Plain(t) => t@ == text,
            HoverContents::Markdown(_) => false,
        },
        None => false,
    }
}

/// The hover for an identifier over `range`: an operation with its details
/// from the project's documents (or a note that it is not there), a
/// workflow or a step with its details from the project's Arazzo document;
/// nothing without the documents to look in, or for a workflow or step that
/// is not there.
pub open spec fn hover_for(
    kind: IdentifierKind,
    range: Range,
    resolver: Option<&OpenApiResolver>,
    project: Option<&ArazzoSpec>,
    h: Option<Hover>,
) -> bool {
    match kind {
        IdentifierKind::OperationId(op) => match resolver {
            None => h is None,
            Some(res) => match first_operation_hit(res.specs@, op@, 0) {
                Some(hit) => {
                    let o = hit_operation(res.specs@, hit);
                    markdown_hover(
                        h,
                        range,
                        operation_markdown(
                            op@,
                            uppercase(hit.2.spec_name()),
                            res.specs@[hit.0].1.paths.unwrap()@[hit.1].0@,
                            or_empty(o.summary),
                            or_empty(o.description),
                        ),
                    )
                },
                None => plain_hover(h, range, "Operation '"@ + op@ + "' not found in OpenAPI specification"@),
            },
        },
        IdentifierKind::WorkflowId(id) => match project {
            None => h is None,
            Some(spec) => match workflow_with_id(spec.workflows@, id@, 0) {
                Some(i) => markdown_hover(h, range, workflow_markdown(spec.workflows@[i])),
                None => h is None,
            },
        },
        IdentifierKind::StepId(id) => match project {
            None => h is None,
            Some(spec) => match step_in_workflows(spec.workflows@, id@, 0) {
                Some((i, j)) => markdown_hover(h, range, step_markdown(spec.workflows@[i].steps@[j])),
                None => h is None,
            },
        },
    }
}

/// The text, or nothing.
fn text_or_empty(o: &Option<String>) -> (r: String)
    ensures
        r@ == or_empty(*o),
{
    match o {
        Some(s) => s.clone(),
        None => String::new(),
    }
}

/// The Markdown for an operation.
fn operation_text(id: &str, method: &str, path: &str, summary: &str, description: &str) -> (r: String)
    ensures
        r@ == operation_markdown(id@, method@, path@, summary@, description@),
{
    let mut t = String::from_str("**Operation**: `");
    t.append(id);
    t.append("`\n\n**Method**: ");
    t.append(method);
    t.append("\n\n**Path**: `");
    t.append(path);
    t.append("`");
    let dl = crate::text::chars_of(description).len();
    let sl = crate::text::chars_of(summary).len();
    if dl > 0 {
        t.append("\n\n**Summary**: ");
        t.append(summary);
        t.append("\n\n");
        t.append(description);
    } else if sl > 0 {
        t.append("\n\n");
        t.append(summary);
    }
    t
}

/// The Markdown for a workflow.
fn workflow_text(w: &Workflow) -> (r: String)
    ensures
        r@ == workflow_markdown(*w),
{
    let mut t = String::from_str("**Workflow**: `");
    t.append(w.workflow_id.as_str());
    t.append("`\n\n");
    match &w.description {
        Some(d) => {
            t.append(d.as_str());
            t.append("\n\n");
        },
        None => {},
    }
    t.append("**Steps**: ");
    t.append(decimal_u64(w.steps.len() as u64).as_str());
    t
}

/// The Markdown for a step.
fn step_text(s: &Step) -> (r: String)
    ensures
        r@ == step_markdown(*s),
{
    let mut t = String::from_str("**Step**: `");
    t.append(s.step_id.as_str());
    t.append("`\n\n");
    match &s.description {
        Some(d) => {
            t.append(d.as_str());
            t.append("\n\n");
        },
        None => {},
    }
    match &s.operation_id {
        Some(o) => {
            t.append("**Operation**: `");
            t.append(o.as_str());
            t.append("`");
        },
        None => match &s.operation_path {
            Some(p) => {
                t.append("**Operation Path**: `");
                t.append(p.as_str());
                t.append("`");
            },
            None => {},
        },
    }
    t
}

/// The hover for an identifier over `range`.
#[verifier::loop_isolation(false)]
pub fn hover_for_identifier(
    kind: &IdentifierKind,
    range: Range,
    resolver: Option<&OpenApiResolver>,
    project: Option<&ArazzoSpec>,
) -> (h: Option<Hover>)
    ensures
        hover_for(*kind, range, resolver, project, h),
{
    match kind {
        IdentifierKind::OperationId(op) => match resolver {
            None => None,
            Some(res) => match res.find_operation_with_details(op.as_str()) {
                Some((op_ref, operation)) => {
                    let method = to_uppercase(op_ref.method.as_str());
                    let summary = text_or_empty(&operation.summary);
                    let description = text_or_empty(&operation.description);
                    let t = operation_text(op.as_str(), method.as_str(), op_ref.path.as_str(), summary.as_str(), description.as_str());
                    Some(Hover { contents: HoverContents::Markdown(t), range: Some(range) })
                },
                None => {
                    let mut t = String::from_str("Operation '");
                    t.append(op.as_str());
                    t.append("' not found in OpenAPI specification");
                    Some(Hover { contents: HoverContents::Plain(t), range: Some(range) })
                },
            },
        },
        IdentifierKind::WorkflowId(id) => match project {
            None => None,
            Some(spec) => {
                let mut i: usize = 0;
                while i < spec.workflows.len()
                    invariant
                        i <= spec.workflows@.len(),
                        workflow_with_id(spec.workflows@, id@, 0) == workflow_with_id(spec.workflows@, id@, i as int),
                    decreases spec.workflows.len() - i,
                {
                    if str_eq(spec.workflows[i].workflow_id.as_str(), id.as_str()) {
                        let t = workflow_text(&spec.workflows[i]);
                        return Some(Hover { contents: HoverContents::Markdown(t), range: Some(range) });
                    }
                    i = i + 1;
                }
                None
            },
        },
        IdentifierKind::StepId(id) => match project {
            None => None,
            Some(spec) => {
                let mut i: usize = 0;
                while i < spec.workflows.len()
                    invariant
                        i <= spec.workflows@.len(),
                        step_in_workflows(spec.workflows@, id@, 0) == step_in_workflows(spec.workflows@, id@, i as int),
                    decreases spec.workflows.len() - i,
                {
                    let w = &spec.workflows[i];
                    let mut j: usize = 0;
                    while j < w.steps.len()
                        invariant
                            i < spec.workflows@.len(),
                            *w == spec.workflows@[i as int],
                            j <= w.steps@.len(),
                            step_with_id(w.steps@, id@, 0) == step_with_id(w.steps@, id@, j as int),
                            step_in_workflows(spec.workflows@, id@, 0) == step_in_workflows(spec.workflows@, id@, i as int),
                        decreases w.steps.len() - j,
                    {
                        if str_eq(w.steps[j].step_id.as_str(), id.as_str()) {
                            let t = step_text(&w.steps[j]);
                            return Some(Hover { contents: HoverContents::Markdown(t), range: Some(range) });
                        }
                        j = j + 1;
                    }
                    i = i + 1;
                }
                None
            },
        },
    }
}

/// The hover at a position of a document: for the first identifier whose
/// range holds it, nothing when there is none.
pub fn provide_hover(
    map: &PositionMap,
    position: Position,
    resolver: Option<&OpenApiResolver>,
    project: Option<&ArazzoSpec>,
) -> (h: Option<Hover>)
    ensures
        match identifier_index(map.identifiers@, position, 0) {
            Some(i) => hover_for(map.identifiers@[i].kind, map.identifiers@[i].range, resolver, project, h),
            None => h is None,
        },
{
    match map.find_identifier_at(position) {
        Some(info) => hover_for_identifier(&info.kind, info.range, resolver, project),
        None => None,
    }
}

} // verus!
