use hornet2::lsp::framing::{frame_message, header_line, HeaderLine};
use hornet2::loader::openapi_resolver::OpenApiResolver;
use hornet2::lsp::completion::{provide_completion, CompletionItemKind};
use hornet2::lsp::definition::{find_operation_id_in_text, provide_definition};
use hornet2::lsp::document::{CompletionContext, IdentifierKind, PositionMap, Position, Range};
use hornet2::lsp::hover::{provide_hover, HoverContents};
use hornet2::models::arazzo::{ArazzoSpec, Info, Step, Workflow};
use hornet2::models::openapi::{OpenApiV3Spec, Operation, PathItem};
use hornet2::text::lines_of;

fn s(x: &str) -> String {
    x.to_string()
}

// A workflow identifier is found on a line of its own: the pattern allows
// only spaces before the key.
const DOC: &str = "arazzo: 1.0.0\nworkflows:\n  -\n    workflowId: signup\n    steps:\n      - stepId: create\n        operationId: createUser\n      - stepId: fetch\n        operationPath: '{$sourceDescriptions.api.url}#/users'\n";

fn pos(line: u32, character: u32) -> Position {
    Position { line, character }
}

fn range(line: u32, a: u32, b: u32) -> Range {
    Range { start: pos(line, a), end: pos(line, b) }
}

fn op(id: Option<&str>, summary: Option<&str>) -> Operation {
    Operation {
        operation_id: id.map(s),
        summary: summary.map(s),
        description: None,
        tags: vec![],
        parameters: vec![],
        request_body: None,
        responses: None,
    }
}

fn resolver() -> OpenApiResolver {
    let mut item = PathItem { get: None, put: None, post: None, delete: None, options: None, head: None, patch: None, trace: None };
    item.post = Some(op(Some("createUser"), Some("Create a user")));
    item.get = Some(op(None, None));
    let spec = OpenApiV3Spec { openapi: s("3.0.0"), title: s("A"), servers: vec![], paths: Some(vec![(s("/users"), item)]), components: None };
    let mut r = OpenApiResolver::new(s("/p"));
    r.insert_spec(s("api"), spec);
    r
}

fn project() -> ArazzoSpec {
    let step = |id: &str, op: Option<&str>| Step {
        step_id: s(id),
        description: Some(s("makes it")),
        operation_id: op.map(s),
        operation_path: None,
        workflow_id: None,
        parameters: vec![],
        request_body: None,
        success_criteria: None,
        on_success: None,
        on_failure: None,
        outputs: None,
    };
    ArazzoSpec {
        arazzo: s("1.0.0"),
        info: Info { title: s("T"), summary: None, description: None, version: s("1") },
        source_descriptions: vec![],
        workflows: vec![Workflow {
            workflow_id: s("signup"),
            summary: None,
            description: Some(s("Signs up")),
            inputs: None,
            steps: vec![step("create", Some("createUser")), step("fetch", None)],
            success_criteria: None,
            outputs: None,
            extensions: vec![],
        }],
        components: None,
    }
}

#[test]
fn test_lines_of() {
    assert_eq!(lines_of("a\r\nb\n\nc"), vec![s("a"), s("b"), s(""), s("c")]);
    assert_eq!(lines_of("a\n"), vec![s("a")]);
    assert!(lines_of("").is_empty());
    assert_eq!(lines_of("x\r"), vec![s("x\r")]);
}

#[test]
fn test_position_map_build() {
    let map = PositionMap::build(DOC);
    assert_eq!(map.get_workflow_range("signup"), Some(range(3, 4, 21)));
    assert_eq!(map.get_step_range("signup", "create"), Some(range(5, 8, 21)));
    assert_eq!(map.get_step_range("signup", "fetch"), Some(range(7, 8, 20)));
    assert_eq!(map.get_step_range("other", "create"), None);
    assert_eq!(map.operation_ids.len(), 1);
    assert_eq!(map.operation_ids[0].0, "signup.create.createUser");
    assert_eq!(map.identifiers.len(), 4);
    let at = map.find_identifier_at(pos(6, 10)).unwrap();
    assert!(matches!(at.kind, IdentifierKind::OperationId(ref o) if o == "createUser"));
    assert!(map.find_identifier_at(pos(0, 0)).is_none());
    // A workflow identifier after a list dash is not found.
    assert!(PositionMap::build("  - workflowId: w\n").workflows.is_empty());
    assert!(PositionMap::contains_position(range(1, 2, 5), pos(1, 5)));
    assert!(!PositionMap::contains_position(range(1, 2, 5), pos(1, 6)));
}

#[test]
fn test_completion_context_and_items() {
    let map = PositionMap::build(DOC);
    assert_eq!(map.get_completion_context(pos(6, 0), DOC), Some(CompletionContext::OperationId));
    assert_eq!(map.get_completion_context(pos(8, 0), DOC), Some(CompletionContext::OperationPath));
    assert_eq!(map.get_completion_context(pos(0, 0), DOC), None);
    assert_eq!(map.get_completion_context(pos(99, 0), DOC), None);

    let res = resolver();
    let ids = provide_completion(DOC, pos(6, 0), &map, Some(&res)).unwrap();
    assert_eq!(ids.len(), 1);
    assert_eq!(ids[0].label, "createUser");
    assert_eq!(ids[0].kind, CompletionItemKind::Function);
    assert_eq!(ids[0].detail, Some(s("POST /users")));
    assert_eq!(ids[0].documentation, Some(s("Create a user")));

    let paths = provide_completion(DOC, pos(8, 0), &map, Some(&res)).unwrap();
    assert_eq!(paths.len(), 2);
    assert_eq!(paths[0].label, "GET /users");
    assert_eq!(paths[0].detail, Some(s("operationId: unknown")));
    assert_eq!(paths[0].insert_text, Some(s("/users")));
    assert_eq!(paths[1].label, "POST /users");
    assert!(provide_completion(DOC, pos(8, 0), &map, None).is_none());
}

#[test]
fn test_hover() {
    let map = PositionMap::build(DOC);
    let res = resolver();
    let spec = project();
    let h = provide_hover(&map, pos(6, 10), Some(&res), Some(&spec)).unwrap();
    assert_eq!(h.range, Some(range(6, 8, 30)));
    assert!(matches!(h.contents, HoverContents::Markdown(ref t)
        if t == "**Operation**: `createUser`\n\n**Method**: POST\n\n**Path**: `/users`\n\nCreate a user"));
    let h = provide_hover(&map, pos(3, 6), Some(&res), Some(&spec)).unwrap();
    assert!(matches!(h.contents, HoverContents::Markdown(ref t) if t == "**Workflow**: `signup`\n\nSigns up\n\n**Steps**: 2"));
    let h = provide_hover(&map, pos(5, 9), Some(&res), Some(&spec)).unwrap();
    assert!(matches!(h.contents, HoverContents::Markdown(ref t) if t == "**Step**: `create`\n\nmakes it\n\n**Operation**: `createUser`"));
    let empty = OpenApiResolver::new(s("/p"));
    let h = provide_hover(&map, pos(6, 10), Some(&empty), None).unwrap();
    assert!(matches!(h.contents, HoverContents::Plain(ref t) if t == "Operation 'createUser' not found in OpenAPI specification"));
    assert!(provide_hover(&map, pos(3, 6), Some(&res), None).is_none());
    assert!(provide_hover(&map, pos(0, 0), Some(&res), Some(&spec)).is_none());
}

#[test]
fn test_definition() {
    let api = "paths:\n  /users:\n    post:\n      operationId: createUser\n";
    assert_eq!(find_operation_id_in_text(api, "createUser"), Some(range(3, 19, 29)));
    assert_eq!(find_operation_id_in_text(api, "missing"), None);
    let map = PositionMap::build(DOC);
    assert_eq!(provide_definition(&map, pos(6, 10), Some(api)), Some(range(3, 19, 29)));
    assert_eq!(provide_definition(&map, pos(6, 10), None), None);
    assert_eq!(provide_definition(&map, pos(3, 6), Some(api)), None);
}

#[test]
fn lsp_message_framing() {
    assert_eq!(frame_message("{}"), "Content-Length: 2\r\n\r\n{}");
    assert_eq!(frame_message("é"), "Content-Length: 2\r\n\r\né");
    assert_eq!(header_line("Content-Length: 42\r\n"), HeaderLine::Length(42));
    assert_eq!(header_line("  Content-Length: 7 \t"), HeaderLine::Length(7));
    assert_eq!(header_line("\r\n"), HeaderLine::End);
    assert_eq!(header_line(""), HeaderLine::End);
    assert_eq!(header_line("Content-Type: application/json\r\n"), HeaderLine::Other);
    assert_eq!(header_line("Content-Length: x\r\n"), HeaderLine::Other);
}
