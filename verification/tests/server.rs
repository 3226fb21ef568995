use hornet2::json::JsonValue;
use hornet2::loader::openapi_resolver::OpenApiResolver;
use hornet2::models::arazzo::{ArazzoSpec, Info, SourceDescription, Step, Workflow};
use hornet2::models::openapi::{
    Components, MediaType, ObjectOrReference, ObjectSchema, OpenApiV3Spec, Operation, Parameter, ParameterIn, PathItem,
    RequestBody, Response, Schema,
};
use hornet2::server::api::{
    add_workflow, check_project_name, check_workflow_id, extract_location_from_error, find_workflow,
    get_project_operations, location_from_captures, parse_error_report, parse_usize, project_detail, project_info,
    remove_workflow, replace_workflow, validation_report, workflow_graph, workflow_infos, ProblemDetails,
};
use hornet2::server::operations::extract_operations;

fn s(x: &str) -> String {
    x.to_string()
}

fn step(id: &str) -> Step {
    Step {
        step_id: s(id),
        description: None,
        operation_id: Some(s("op")),
        operation_path: None,
        workflow_id: None,
        parameters: vec![],
        request_body: None,
        success_criteria: None,
        on_success: None,
        on_failure: None,
        outputs: None,
    }
}

fn workflow(id: &str, steps: Vec<Step>) -> Workflow {
    Workflow {
        workflow_id: s(id),
        summary: Some(s("summary")),
        description: None,
        inputs: None,
        steps,
        success_criteria: None,
        outputs: None,
        extensions: vec![],
    }
}

fn arazzo(workflows: Vec<Workflow>) -> ArazzoSpec {
    ArazzoSpec {
        arazzo: s("1.0.0"),
        info: Info { title: s("Shop"), summary: None, description: Some(s("d")), version: s("1.0.0") },
        source_descriptions: vec![SourceDescription { name: s("api"), url: s("api.yaml"), source_type: None }],
        workflows,
        components: None,
    }
}

fn empty_item() -> PathItem {
    PathItem { get: None, put: None, post: None, delete: None, options: None, head: None, patch: None, trace: None }
}

fn op(id: Option<&str>) -> Operation {
    Operation {
        operation_id: id.map(s),
        summary: None,
        description: None,
        tags: vec![s("users")],
        parameters: vec![],
        request_body: None,
        responses: None,
    }
}

fn param(name: &str, location: ParameterIn, required: Option<bool>) -> Parameter {
    Parameter { name: s(name), location, required, schema_type: Some(s("Single(String)")), description: None }
}

fn json_response(props: &[&str]) -> Response {
    Response {
        description: Some(s("ok")),
        content: vec![(
            s("application/json"),
            MediaType {
                schema: Some(Schema::Object(ObjectOrReference::Object(ObjectSchema {
                    properties: props.iter().map(|p| s(p)).collect(),
                }))),
            },
        )],
    }
}

fn users_api() -> OpenApiV3Spec {
    let mut get = op(Some("getUser"));
    get.parameters = vec![
        ObjectOrReference::Object(param("id", ParameterIn::Path, Some(true))),
        ObjectOrReference::Ref(s("#/components/parameters/limit")),
        ObjectOrReference::Ref(s("#/components/parameters/missing")),
    ];
    get.responses = Some(vec![
        (s("404"), ObjectOrReference::Object(json_response(&["error"]))),
        (s("default"), ObjectOrReference::Object(json_response(&[]))),
        (s("200"), ObjectOrReference::Ref(s("#/components/responses/User"))),
    ]);
    let mut post = op(None);
    post.request_body = Some(ObjectOrReference::Ref(s("#/components/requestBodies/NewUser")));
    post.responses = Some(vec![(
        s("201"),
        ObjectOrReference::Object(Response {
            description: None,
            content: vec![(
                s("application/json"),
                MediaType { schema: Some(Schema::Object(ObjectOrReference::Ref(s("#/components/schemas/User")))) },
            )],
        }),
    )]);
    let mut item = empty_item();
    item.post = Some(post);
    item.get = Some(get);
    OpenApiV3Spec {
        openapi: s("3.0.3"),
        title: s("Users"),
        servers: vec![],
        paths: Some(vec![(s("/users/{id}"), item)]),
        components: Some(Components {
            schemas: vec![(s("User"), Schema::Object(ObjectOrReference::Object(ObjectSchema { properties: vec![s("id"), s("name")] })))],
            responses: vec![(s("User"), ObjectOrReference::Object(json_response(&["id", "email"])))],
            parameters: vec![(s("limit"), ObjectOrReference::Object(param("limit", ParameterIn::Query, None)))],
            request_bodies: vec![(
                s("NewUser"),
                ObjectOrReference::Object(RequestBody {
                    description: Some(s("new user")),
                    content_types: vec![s("application/json"), s("text/plain")],
                    required: Some(true),
                }),
            )],
        }),
    }
}

#[test]
fn test_extract_operations() {
    let ops = extract_operations(&vec![(s("users"), users_api())]);
    assert_eq!(ops.len(), 2);
    // get comes before post.
    let get = &ops[0];
    assert_eq!(get.operation_id, "getUser");
    assert_eq!(get.method, "GET");
    assert_eq!(get.path, "/users/{id}");
    assert_eq!(get.tags, vec![s("users")]);
    assert_eq!(get.parameters.len(), 2);
    assert_eq!(get.parameters[0].name, "id");
    assert_eq!(get.parameters[0].location, "path");
    assert!(get.parameters[0].required);
    assert_eq!(get.parameters[0].schema_type, Some(s("Single(String)")));
    assert_eq!(get.parameters[1].name, "limit");
    assert_eq!(get.parameters[1].location, "query");
    assert!(!get.parameters[1].required);
    assert!(get.request_body.is_none());
    assert_eq!(get.response_codes, vec![s("404"), s("200")]);
    let schema = get.response_schema.as_ref().unwrap();
    assert_eq!(schema.status_code, "200");
    assert_eq!(schema.properties, vec![s("id"), s("email")]);

    let post = &ops[1];
    assert_eq!(post.operation_id, "users_post__users_{id}");
    assert_eq!(post.method, "POST");
    let body = post.request_body.as_ref().unwrap();
    assert!(body.required);
    assert_eq!(body.content_types, vec![s("application/json"), s("text/plain")]);
    assert_eq!(body.description, Some(s("new user")));
    let schema = post.response_schema.as_ref().unwrap();
    assert_eq!(schema.status_code, "201");
    assert_eq!(schema.properties, vec![s("id"), s("name")]);
}

#[test]
fn test_success_response_without_properties() {
    let mut get = op(Some("list"));
    get.responses = Some(vec![
        (s("2XX"), ObjectOrReference::Object(json_response(&["a"]))),
        (s("204"), ObjectOrReference::Object(json_response(&[]))),
        (s("200"), ObjectOrReference::Object(json_response(&["b"]))),
    ]);
    let mut item = empty_item();
    item.get = Some(get);
    let spec = OpenApiV3Spec { openapi: s("3.1.0"), title: s("A"), servers: vec![], paths: Some(vec![(s("/x"), item)]), components: None };
    let ops = extract_operations(&vec![(s("a"), spec)]);
    assert_eq!(ops[0].response_codes, vec![s("204"), s("200")]);
    // The first success response has no properties: there is no schema.
    assert!(ops[0].response_schema.is_none());
}

#[test]
fn test_project_name_checks() {
    assert!(check_project_name("shop").is_ok());
    for bad in ["../etc", "a/b", "a\\b", ".."] {
        let p = check_project_name(bad).unwrap_err();
        assert_eq!(p.status, 400);
        assert_eq!(p.type_, "https://hornet2.dev/problems/invalid-project-name");
        assert_eq!(p.title, "Invalid Request");
        assert_eq!(p.detail, "Project name contains invalid characters");
    }
}

#[test]
fn test_get_project_operations_answers() {
    let mut resolver = OpenApiResolver::new(s("/p"));
    resolver.insert_spec(s("users"), users_api());
    let ok = get_project_operations("shop", Ok(&resolver)).ok().unwrap();
    assert_eq!(ok.operations.len(), 2);
    let missing = get_project_operations("shop", Err(s("no such project"))).err().unwrap();
    assert_eq!(missing.status, 404);
    assert_eq!(missing.detail, "Project 'shop' not found: no such project");
    let bad = get_project_operations("../x", Ok(&resolver)).err().unwrap();
    assert_eq!(bad.status, 400);
}

#[test]
fn test_project_listings() {
    let mut resolver = OpenApiResolver::new(s("/p"));
    resolver.insert_spec(s("users"), users_api());
    let spec = arazzo(vec![workflow("a", vec![step("s1")])]);
    let info = project_info("shop", &spec, &resolver);
    assert_eq!(info.arazzo_path, "shop/arazzo.yaml");
    assert_eq!(info.openapi_files, vec![s("shop/users.yaml")]);
    assert_eq!(info.workflow_count, 1);
    let detail = project_detail("shop", &spec, &resolver);
    assert_eq!(detail.openapi_files, vec![s("users.yaml")]);
    assert_eq!(detail.title, "Shop");
    let listed = workflow_infos(&spec);
    assert_eq!(listed.workflows[0].workflow_id, "a");
    assert_eq!(listed.workflows[0].title, Some(s("summary")));
    assert_eq!(listed.workflows[0].steps, 1);
}

#[test]
fn test_workflow_edits() {
    let mut spec = arazzo(vec![workflow("a", vec![step("s1")]), workflow("b", vec![])]);
    let conflict = add_workflow(&mut spec, workflow("a", vec![])).unwrap_err();
    assert_eq!(conflict.status, 409);
    assert_eq!(conflict.detail, "Workflow with ID 'a' already exists");
    assert!(add_workflow(&mut spec, workflow("c", vec![])).is_ok());
    assert_eq!(spec.workflows.len(), 3);
    assert_eq!(spec.workflows[2].workflow_id, "c");

    assert!(check_workflow_id("b", &workflow("b", vec![])).is_ok());
    let mismatch = check_workflow_id("b", &workflow("x", vec![])).unwrap_err();
    assert_eq!(mismatch.detail, "Workflow ID in path (b) does not match workflow ID in body (x)");

    assert!(replace_workflow(&mut spec, "b", workflow("b", vec![step("t")])).is_ok());
    assert_eq!(spec.workflows[1].steps.len(), 1);
    let nf = replace_workflow(&mut spec, "zz", workflow("zz", vec![])).unwrap_err();
    assert_eq!(nf.status, 404);
    assert_eq!(nf.detail, "Workflow 'zz' not found");

    assert_eq!(find_workflow(&spec, "c").ok().unwrap().workflow_id, "c");
    assert!(find_workflow(&spec, "zz").is_err());

    assert!(remove_workflow(&mut spec, "a").is_ok());
    assert_eq!(spec.workflows.iter().map(|w| w.workflow_id.as_str()).collect::<Vec<_>>(), vec!["b", "c"]);
    assert_eq!(remove_workflow(&mut spec, "a").unwrap_err().status, 404);
    assert_eq!(spec.workflows.len(), 2);
}

#[test]
fn test_workflow_graph() {
    let spec = arazzo(vec![workflow("a", vec![step("s1"), step("s2")])]);
    let j = workflow_graph(&spec, "a", None).ok().unwrap();
    assert!(matches!(j.get("nodes"), Some(JsonValue::Array(ns)) if ns.len() == 2));
    assert_eq!(workflow_graph(&spec, "b", None).err().unwrap().status, 404);
}

#[test]
fn test_validation_report() {
    let report = validation_report(&arazzo(vec![]));
    assert!(!report.valid);
    assert_eq!(report.errors.len(), 1);
    assert_eq!(report.errors[0].message, "At least one workflow is required");

    let spec = arazzo(vec![workflow("w", vec![step("a"), step("a"), step("b"), step("a")]), workflow("empty", vec![])]);
    let report = validation_report(&spec);
    let messages: Vec<&str> = report.errors.iter().map(|e| e.message.as_str()).collect();
    assert_eq!(
        messages,
        vec![
            "Duplicate step ID 'a' in workflow 'w'",
            "Duplicate step ID 'a' in workflow 'w'",
            "Workflow 'empty' must have at least one step",
        ]
    );
    assert!(report.errors.iter().all(|e| e.line.is_none() && e.column.is_none()));
    assert!(validation_report(&arazzo(vec![workflow("w", vec![step("a")])])).valid);
}

#[test]
fn test_extract_location_from_error() {
    assert_eq!(extract_location_from_error("mapping values are not allowed at line 3 column 7"), (Some(3), Some(7)));
    assert_eq!(extract_location_from_error("no place"), (None, None));
    assert_eq!(extract_location_from_error("line 99999999999999999999999 column 2"), (None, Some(2)));
    let report = parse_error_report(s("bad at line 12 column 1"));
    assert!(!report.valid);
    assert_eq!(report.errors[0].line, Some(12));
    assert_eq!(report.errors[0].column, Some(1));
    assert_eq!(location_from_captures(Some(s("4")), None), (Some(4), None));
}

#[test]
fn test_parse_usize() {
    assert_eq!(parse_usize("42"), Some(42));
    assert_eq!(parse_usize("+7"), Some(7));
    assert_eq!(parse_usize(""), None);
    assert_eq!(parse_usize("+"), None);
    assert_eq!(parse_usize("-1"), None);
    assert_eq!(parse_usize("1a"), None);
    assert_eq!(parse_usize("18446744073709551615"), Some(usize::MAX));
    assert_eq!(parse_usize("18446744073709551616"), None);
}

#[test]
fn test_problem_with_instance() {
    let p = ProblemDetails::new(500, "x", "X", s("d")).with_instance(s("/api/1"));
    assert_eq!(p.type_, "https://hornet2.dev/problems/x");
    assert_eq!(p.instance, Some(s("/api/1")));
}
