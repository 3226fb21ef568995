//! What completing an operation identifier or path in an Arazzo document
//! offers: the operations of the project's OpenAPI documents.

use vstd::prelude::*;
use crate::loader::openapi_resolver::OpenApiResolver;
use crate::lsp::document::{completion_context_of, CompletionContext, PositionMap, Position};
use crate::models::openapi::{HttpMethod, OpenApiV3Spec, Operation};
use crate::server::operations::{hits_view, operation_hits, operation_positions, spec_paths, valid_hit};
use crate::text::{opt_view, text_lines};

verus! {

/// The kind of a completion item.
#[derive(Debug, Clone, Copy, PartialEq, Eq, Structural)]
pub enum CompletionItemKind {
    Function,
    Reference,
}

/// A completion item.
pub struct CompletionItem {
    pub label: String,
    pub kind: CompletionItemKind,
    pub detail: Option<String>,
    /// Markdown documentation.
    pub documentation: Option<String>,
    pub insert_text: Option<String>,
}

/// The operation at a hit.
pub open spec fn hit_op(specs: Seq<(String, OpenApiV3Spec)>, h: (int, int, HttpMethod)) -> Operation {
    spec_paths(specs[h.0].1)[h.1].1.spec_operation(h.2).unwrap()
}

/// The path at a hit.
pub open spec fn hit_path(specs: Seq<(String, OpenApiV3Spec)>, h: (int, int, HttpMethod)) -> Seq<char> {
    spec_paths(specs[h.0].1)[h.1].0@
}

/// The hits among the first `n` whose operation has an identifier.
pub open spec fn id_hits(specs: Seq<(String, OpenApiV3Spec)>, hits: Seq<(int, int, HttpMethod)>, n: int) -> Seq<(int, int, HttpMethod)>
    decreases n,
{
    if n <= 0 || n > hits.len() {
        Seq::empty()
    } else if hit_op(specs, hits[n - 1]).operation_id is Some {
        id_hits(specs, hits, n - 1).push(hits[n - 1])
    } else {
        id_hits(specs, hits, n - 1)
    }
}

/// The item offering an operation identifier: the identifier, the method
/// and path as detail, the summary (or else the description) as
/// documentation.
pub open spec fn id_item_for(item: CompletionItem, specs: Seq<(String, OpenApiV3Spec)>, h: (int, int, HttpMethod)) -> bool {
    let op = hit_op(specs, h);
    &&& Some(item.label@) == opt_view(op.operation_id)
    &&& item.kind == CompletionItemKind::Function
    &&& opt_view(item.detail) == Some(h.2.spec_name() + " "@ + hit_path(specs, h))
    &&& opt_view(item.documentation) == (match op.summary {
        Some(s) => Some(s@),
        None => opt_view(op.description),
    })
    &&& item.insert_text is None
}

/// The item offering an operation path: method and path as label, the
/// operation identifier (or `unknown`) as detail, the path as text.
pub open spec fn path_item_for(item: CompletionItem, specs: Seq<(String, OpenApiV3Spec)>, h: (int, int, HttpMethod)) -> bool {
    let op = hit_op(specs, h);
    &&& item.label@ == h.2.spec_name() + " "@ + hit_path(specs, h)
    &&& item.kind == CompletionItemKind::Reference
    &&& opt_view(item.detail) == Some("operationId: "@ + (match op.operation_id {
        Some(id) => id@,
        None => "unknown"@,
    }))
    &&& item.documentation is None
    &&& opt_view(item.insert_text) == Some(hit_path(specs, h))
}

/// The items offered in a context, from the project's documents: for an
/// operation identifier, one per operation that has one; for an operation
/// path, one per operation; in document, path and method order.
pub open spec fn items_for(ctx: CompletionContext, specs: Seq<(String, OpenApiV3Spec)>, items: Seq<CompletionItem>) -> bool {
    let hits = operation_hits(specs, specs.len() as int);
    match ctx {
        CompletionContext::OperationId => {
            let sel = id_hits(specs, hits, hits.len() as int);
            &&& items.len() == sel.len()
            &&& forall|k: int| 0 <= k < sel.len() ==> id_item_for(#[trigger] items[k], specs, sel[k])
        },
        CompletionContext::OperationPath => {
            &&& items.len() == hits.len()
            &&& forall|k: int| 0 <= k < hits.len() ==> path_item_for(#[trigger] items[k], specs, hits[k])
        },
    }
}

/// `method path`.
fn method_path(m: HttpMethod, path: &str) -> (r: String)
    ensures
        r@ == m.spec_name() + " "@ + path@,
{
    let mut r = m.name();
    r.append(" ");
    r.append(path);
    r
}

/// The items offered in a context, from the documents.
pub fn completion_items(ctx: CompletionContext, specs: &Vec<(String, OpenApiV3Spec)>) -> (r: Vec<CompletionItem>)
    ensures
        items_for(ctx, specs@, r@),
{
    let hits = operation_positions(specs);
    let ghost hv = hits_view(hits@);
    let mut items: Vec<CompletionItem> = Vec::new();
    let mut k: usize = 0;
    while k < hits.len()
        invariant
            k <= hits@.len(),
            hv == hits_view(hits@),
            hv == operation_hits(specs@, specs@.len() as int),
            forall|q: int| 0 <= q < hits@.len() ==> valid_hit(specs@, #[trigger] hv[q]),
            ctx == CompletionContext::OperationId ==> {
                let sel = id_hits(specs@, hv, k as int);
                &&& items@.len() == sel.len()
                &&& forall|q: int| 0 <= q < sel.len() ==> id_item_for(#[trigger] items@[q], specs@, sel[q])
            },
            ctx == CompletionContext::OperationPath ==> {
                &&& items@.len() == k
                &&& forall|q: int| 0 <= q < k ==> path_item_for(#[trigger] items@[q], specs@, hv[q])
            },
        decreases hits.len() - k,
    {
        let (i, j, m) = hits[k];
        assert(valid_hit(specs@, hv[k as int]));
        let spec = &specs[i].1;
        if let Some(paths) = &spec.paths {
            let path = &paths[j].0;
            if let Some(op) = paths[j].1.operation(m) {
                match ctx {
                    CompletionContext::OperationId => {
                        if let Some(id) = &op.operation_id {
                            let documentation = match &op.summary {
                                Some(s) => Some(s.clone()),
                                None => crate::graph::copy_opt_string(&op.description),
                            };
                            items.push(CompletionItem {
                                label: id.clone(),
                                kind: CompletionItemKind::Function,
                                detail: Some(method_path(m, path.as_str())),
                                documentation,
                                insert_text: None,
                            });
                        }
                    },
                    CompletionContext::OperationPath => {
                        let mut detail = String::from_str("operationId: ");
                        match &op.operation_id {
                            Some(id) => detail.append(id.as_str()),
                            None => detail.append("unknown"),
                        }
                        items.push(CompletionItem {
                            label: method_path(m, path.as_str()),
                            kind: CompletionItemKind::Reference,
                            detail: Some(detail),
                            documentation: None,
                            insert_text: Some(path.clone()),
                        });
                    },
                }
            }
        }
        k = k + 1;
    }
    items
}

/// The completion at a position of a document: nothing where the line is
/// not about an operation or there are no documents to offer from.
pub fn provide_completion(content: &str, position: Position, map: &PositionMap, resolver: Option<&OpenApiResolver>) -> (r: Option<Vec<CompletionItem>>)
    ensures
        match (completion_context_of(text_lines(content@), position.line), resolver) {
            (Some(ctx), Some(res)) => r matches Some(items) && items_for(ctx, res.specs@, items@),
            _ => r is None,
        },
{
    let ctx = match map.get_completion_context(position, content) {
        Some(c) => c,
        None => {
            return None;
        },
    };
    match resolver {
        Some(res) => Some(completion_items(ctx, res.get_all_specs())),
        None => None,
    }
}

} // verus!
