use hornet2::json::{JsonNumber, JsonValue};
use hornet2::tracer::generators::arazzo_generator::{ArazzoGenerator, ArazzoGeneratorConfig};
use hornet2::tracer::types::{BodyData, CapturedBody, HttpSpan, SpanDirection};

fn s(x: &str) -> String {
    x.to_string()
}

fn span(trace: &str, start: u64, method: &str, path: &str, status: u16) -> HttpSpan {
    HttpSpan {
        trace_id: s(trace),
        span_id: s("span"),
        parent_span_id: None,
        start_time: start,
        end_time: start + 1,
        service_name: s("svc"),
        service_version: None,
        direction: SpanDirection::Incoming,
        method: s(method),
        path: s(path),
        route: None,
        query: None,
        scheme: s("http"),
        status_code: status,
        server_address: s("localhost"),
        server_port: 8080,
        client_address: None,
        request_body: None,
        response_body: None,
        request_headers: vec![],
        response_headers: vec![],
        attributes: vec![],
    }
}

#[test]
fn test_generate_step_id() {
    assert_eq!(ArazzoGenerator::generate_step_id("GET", "/users"), "get-users");
    assert_eq!(ArazzoGenerator::generate_step_id("GET", "/users/{id}"), "get-users-id");
    assert_eq!(ArazzoGenerator::generate_step_id("POST", "/users/{userId}/posts"), "post-users-userid-posts");
}

#[test]
fn test_parse_query_pairs() {
    assert_eq!(
        ArazzoGenerator::parse_query("a=1&b=&c&d=x=y"),
        vec![(s("a"), s("1")), (s("b"), s("")), (s("c"), s("")), (s("d"), s("x=y"))]
    );
    assert_eq!(ArazzoGenerator::parse_query(""), vec![(s(""), s(""))]);
}

#[test]
fn test_generate_basic_workflow() {
    let spans = vec![span("t", 20, "GET", "/users/1", 200), span("t", 10, "POST", "/users", 201)];
    let generator = ArazzoGenerator::new().with_workflow_name(s("test-workflow"));
    let spec = generator.generate(&spans, &ArazzoGeneratorConfig::default());
    assert_eq!(spec.arazzo, "1.0.0");
    assert_eq!(spec.workflows.len(), 1);
    let wf = &spec.workflows[0];
    assert_eq!(wf.workflow_id, "test-workflow");
    assert_eq!(wf.steps.len(), 2);
    assert_eq!(wf.steps[0].step_id, "post-users");
    assert_eq!(wf.steps[1].step_id, "get-users-1");
    assert_eq!(wf.steps[0].operation_path, Some(s("api#/post/users")));
    assert_eq!(wf.summary, Some(s("Generated workflow with 2 steps")));
    assert_eq!(spec.info.title, "test-workflow Workflow");
}

#[test]
fn arazzo_generator_test_generate_with_request_body() {
    let mut sp = span("t", 1, "POST", "/users", 201);
    sp.request_body = Some(CapturedBody {
        content_type: Some(s("application/json")),
        size: 50,
        data: BodyData::Json(JsonValue::Object(vec![(s("name"), JsonValue::String(s("John")))])),
    });
    sp.response_body = Some(CapturedBody {
        content_type: None,
        size: 10,
        data: BodyData::Json(JsonValue::Object(vec![(s("id"), JsonValue::Number(JsonNumber::Int(5)))])),
    });
    sp.query = Some(s("verbose=1"));
    let spec = ArazzoGenerator::new().generate(&[sp], &ArazzoGeneratorConfig::default());
    let step = &spec.workflows[0].steps[0];
    let body = step.request_body.as_ref().unwrap();
    assert_eq!(body.content_type, Some(s("application/json")));
    match &step.outputs {
        Some(JsonValue::Object(ms)) => {
            assert_eq!(ms.len(), 1);
            assert_eq!(ms[0].0, "id");
            match &ms[0].1 {
                JsonValue::String(e) => assert_eq!(e, "$response.body.id"),
                _ => panic!("expected a string"),
            }
        }
        _ => panic!("expected outputs"),
    }
    assert_eq!(step.parameters.len(), 1);
    assert_eq!(step.parameters[0].name, "verbose");
    assert_eq!(step.parameters[0].location, "query");
    let crit = &step.success_criteria.as_ref().unwrap()[0];
    assert_eq!(crit.context, "$statusCode");
    match &crit.value {
        Some(JsonValue::Number(JsonNumber::UInt(201))) => {}
        _ => panic!("expected the status code"),
    }
}

#[test]
fn test_generate_grouped_by_trace() {
    let spans = vec![
        span("trace-a", 2, "POST", "/users", 201),
        span("trace-b", 1, "GET", "/health", 200),
        span("trace-a", 1, "GET", "/users/1", 200),
    ];
    let config = ArazzoGeneratorConfig { group_by_trace: true, ..ArazzoGeneratorConfig::default() };
    let spec = ArazzoGenerator::new().generate(&spans, &config);
    assert_eq!(spec.workflows.len(), 2);
    assert_eq!(spec.workflows[0].workflow_id, "generated-workflow-1");
    assert_eq!(spec.workflows[0].summary, Some(s("Trace trace-a with 2 steps")));
    assert_eq!(spec.workflows[0].steps[0].step_id, "get-users-1");
    assert_eq!(spec.workflows[1].steps[0].step_id, "get-health");
    assert_eq!(spec.info.summary, Some(s("Auto-generated 2 workflows from trace data")));
}

#[test]
fn test_repeated_step_ids_are_numbered() {
    let spans = vec![span("t", 1, "GET", "/a", 200), span("t", 2, "GET", "/a", 200), span("t", 3, "GET", "/a", 200)];
    let spec = ArazzoGenerator::new().generate(&spans, &ArazzoGeneratorConfig::default());
    let ids: Vec<&str> = spec.workflows[0].steps.iter().map(|st| st.step_id.as_str()).collect();
    assert_eq!(ids, vec!["get-a", "get-a-2", "get-a-3"]);
}

#[test]
fn test_direction_filter() {
    let mut out = span("t", 1, "GET", "/x", 200);
    out.direction = SpanDirection::Outgoing;
    let spans = vec![out, span("t", 2, "GET", "/y", 200)];
    let config = ArazzoGeneratorConfig { direction_filter: Some(SpanDirection::Outgoing), ..ArazzoGeneratorConfig::default() };
    let spec = ArazzoGenerator::new().generate(&spans, &config);
    assert_eq!(spec.workflows[0].steps.len(), 1);
    assert_eq!(spec.workflows[0].steps[0].step_id, "get-x");
}

#[test]
fn test_generate_with_openapi() {
    let spans = vec![span("t", 10, "GET", "/users/1", 200), span("t", 20, "GET", "/users/2", 200)];
    let generator = ArazzoGenerator::new().with_workflow_name(s("shop"));
    let (spec, openapi) = generator.generate_with_openapi(&spans, &ArazzoGeneratorConfig::default());
    assert_eq!(spec.workflows[0].steps.len(), 2);
    let title = openapi.get("info").and_then(|i| i.get("title"));
    assert!(matches!(title, Some(JsonValue::String(t)) if t == "shop API"));
    let op = openapi.get("paths").and_then(|p| p.get("/users/{id}")).and_then(|p| p.get("get"));
    assert!(matches!(op, Some(JsonValue::Object(_))));
}

#[test]
fn numbered_step_ids_pass_over_taken_ones() {
    let g = ArazzoGenerator::new();
    let spans = vec![
        span("t", 1, "GET", "/users", 200),
        span("t", 2, "GET", "/users", 200),
        span("t", 3, "GET", "/users/2", 200),
    ];
    let a = g.generate(&spans, &ArazzoGeneratorConfig::default());
    let ids: Vec<&str> = a.workflows[0].steps.iter().map(|st| st.step_id.as_str()).collect();
    assert_eq!(ids, vec!["get-users", "get-users-2", "get-users-2-2"]);
    assert!(a.validate().is_ok());
}
