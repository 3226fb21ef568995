use hornet2::json::{JsonNumber, JsonValue};
use hornet2::tracer::inference::openapi_generator::{GeneratorConfig, OpenApiGenerator};
use hornet2::tracer::inference::path_analyzer::{ParameterType, PathAnalyzer};
use hornet2::tracer::inference::schema_inferrer::{map_insert_exec, SchemaInferrer};
use hornet2::tracer::types::{BodyData, CapturedBody, HttpSpan, SpanDirection};

fn s(x: &str) -> String {
    x.to_string()
}

fn jstr(x: &str) -> JsonValue {
    JsonValue::String(s(x))
}

fn num(i: i64) -> JsonValue {
    JsonValue::Number(JsonNumber::Int(i))
}

fn obj(ms: Vec<(&str, JsonValue)>) -> JsonValue {
    JsonValue::Object(ms.into_iter().map(|(k, v)| (s(k), v)).collect())
}

/// The value at a path of member names.
fn at<'a>(v: &'a JsonValue, path: &[&str]) -> Option<&'a JsonValue> {
    let mut cur = v;
    for k in path {
        cur = cur.get(k)?;
    }
    Some(cur)
}

/// The text at a path of member names.
fn text_at(v: &JsonValue, path: &[&str]) -> Option<String> {
    match at(v, path) {
        Some(JsonValue::String(t)) => Some(t.clone()),
        _ => None,
    }
}

fn is_object(v: Option<&JsonValue>) -> bool {
    matches!(v, Some(JsonValue::Object(_)))
}

fn span(method: &str, path: &str, status: u16) -> HttpSpan {
    HttpSpan {
        trace_id: s("trace1"),
        span_id: s("span1"),
        parent_span_id: None,
        start_time: 0,
        end_time: 100_000_000,
        service_name: s("test"),
        service_version: None,
        direction: SpanDirection::Incoming,
        method: s(method),
        path: s(path),
        route: None,
        query: None,
        scheme: s("https"),
        status_code: status,
        server_address: s("localhost"),
        server_port: 8080,
        client_address: None,
        request_body: None,
        response_body: None,
        request_headers: vec![],
        response_headers: vec![],
        attributes: vec![],
    }
}

fn pairs(ps: &[(&str, &str)]) -> Vec<(String, String)> {
    ps.iter().map(|(m, p)| (s(m), s(p))).collect()
}

// ---------------------------------------------------------------- schema inference

#[test]
fn test_infer_primitive_types() {
    let inferrer = SchemaInferrer::new();
    let schema = inferrer.infer(&vec![num(42)]);
    assert_eq!(text_at(&schema.schema, &["type"]), Some(s("integer")));
    let schema = inferrer.infer(&vec![JsonValue::Number(JsonNumber::Float(s("3.14")))]);
    assert_eq!(text_at(&schema.schema, &["type"]), Some(s("number")));
    let schema = inferrer.infer(&vec![JsonValue::Bool(true)]);
    assert_eq!(text_at(&schema.schema, &["type"]), Some(s("boolean")));
    let schema = inferrer.infer(&vec![jstr("hello")]);
    assert_eq!(text_at(&schema.schema, &["type"]), Some(s("string")));
}

#[test]
fn test_infer_string_formats() {
    let inferrer = SchemaInferrer::new();
    for (value, format) in [
        ("550e8400-e29b-41d4-a716-446655440000", "uuid"),
        ("user@example.com", "email"),
        ("2024-01-15", "date"),
        ("https://example.com", "uri"),
    ] {
        let schema = inferrer.infer(&vec![jstr(value)]);
        assert_eq!(text_at(&schema.schema, &["type"]), Some(s("string")));
        assert_eq!(text_at(&schema.schema, &["format"]), Some(s(format)));
    }
}

#[test]
fn test_infer_object() {
    let inferrer = SchemaInferrer::new();
    let schema = inferrer.infer(&vec![obj(vec![("name", jstr("John")), ("age", num(30))])]);
    assert_eq!(text_at(&schema.schema, &["type"]), Some(s("object")));
    assert_eq!(text_at(&schema.schema, &["properties", "name", "type"]), Some(s("string")));
    assert_eq!(text_at(&schema.schema, &["properties", "age", "type"]), Some(s("integer")));
}

#[test]
fn test_infer_array() {
    let inferrer = SchemaInferrer::new();
    let schema = inferrer.infer(&vec![JsonValue::Array(vec![num(1), num(2), num(3)])]);
    assert_eq!(text_at(&schema.schema, &["type"]), Some(s("array")));
    assert_eq!(text_at(&schema.schema, &["items", "type"]), Some(s("integer")));
}

#[test]
fn test_merge_objects() {
    let inferrer = SchemaInferrer::new();
    let schema = inferrer.infer(&vec![
        obj(vec![("name", jstr("John")), ("age", num(30))]),
        obj(vec![("name", jstr("Jane")), ("email", jstr("jane@example.com"))]),
    ]);
    assert_eq!(text_at(&schema.schema, &["type"]), Some(s("object")));
    match at(&schema.schema, &["required"]) {
        Some(JsonValue::Array(required)) => {
            assert!(required.iter().any(|r| matches!(r, JsonValue::String(t) if t == "name")));
            assert!(!required.iter().any(|r| matches!(r, JsonValue::String(t) if t == "age")));
            assert!(!required.iter().any(|r| matches!(r, JsonValue::String(t) if t == "email")));
        },
        _ => panic!("expected a required list"),
    }
    assert!(is_object(at(&schema.schema, &["properties", "age"])));
    assert!(is_object(at(&schema.schema, &["properties", "email"])));
}

#[test]
fn test_to_openapi_schema() {
    let inferrer = SchemaInferrer::new();
    let schema = inferrer.infer(&vec![obj(vec![(
        "users",
        JsonValue::Array(vec![obj(vec![("id", num(1)), ("name", jstr("John"))])]),
    )])]);
    let openapi_schema = inferrer.to_openapi_schema(&schema.schema);
    assert_eq!(text_at(&openapi_schema, &["type"]), Some(s("object")));
    assert_eq!(text_at(&openapi_schema, &["properties", "users", "type"]), Some(s("array")));
    assert_eq!(text_at(&openapi_schema, &["properties", "users", "items", "properties", "id", "type"]), Some(s("integer")));
}

#[test]
fn test_infer_keeps_at_most_three_examples() {
    let inferrer = SchemaInferrer::new();
    let schema = inferrer.infer(&vec![num(1), num(2), num(3), num(4)]);
    assert_eq!(schema.sample_count, 4);
    assert_eq!(schema.examples.len(), 3);
    let empty = inferrer.infer(&vec![]);
    assert!(matches!(empty.schema, JsonValue::Object(ref ms) if ms.is_empty()));
    assert!(empty.examples.is_empty());
}

#[test]
fn test_detect_string_format_order() {
    let inferrer = SchemaInferrer::new();
    assert_eq!(inferrer.detect_string_format("2024-01-15T10:00:00Z"), Some(s("date-time")));
    assert_eq!(inferrer.detect_string_format("http://x"), Some(s("uri")));
    assert_eq!(inferrer.detect_string_format("plain"), None);
    assert!(!inferrer.is_uuid("550e8400-e29b-41d4-a716-44665544000g"));
}

// ---------------------------------------------------------------- path analysis

#[test]
fn test_detect_integer_parameter() {
    let analyzer = PathAnalyzer::new();
    let paths = pairs(&[("GET", "/users/1"), ("GET", "/users/2"), ("GET", "/users/3"), ("GET", "/users/42")]);
    let results = analyzer.analyze(&paths);
    assert_eq!(results.len(), 1);
    assert!(results[0].route.contains("{id}"));
    assert_eq!(results[0].parameters.len(), 1);
    assert_eq!(results[0].parameters[0].param_type, ParameterType::Integer);
}

#[test]
fn test_detect_uuid_parameter() {
    let analyzer = PathAnalyzer::new();
    let paths = pairs(&[
        ("GET", "/users/550e8400-e29b-41d4-a716-446655440000"),
        ("GET", "/users/6ba7b810-9dad-11d1-80b4-00c04fd430c8"),
    ]);
    let results = analyzer.analyze(&paths);
    assert_eq!(results.len(), 1);
    assert!(results[0].route.contains("{id}"));
    assert_eq!(results[0].parameters[0].param_type, ParameterType::Uuid);
}

#[test]
fn test_static_path() {
    let analyzer = PathAnalyzer::new();
    let paths = pairs(&[("GET", "/api/health"), ("GET", "/api/health")]);
    let results = analyzer.analyze(&paths);
    assert_eq!(results.len(), 1);
    assert_eq!(results[0].route, "GET /api/health");
    assert!(results[0].parameters.is_empty());
}

#[test]
fn test_multiple_parameters() {
    let analyzer = PathAnalyzer::new();
    let paths = pairs(&[("GET", "/users/1/posts/100"), ("GET", "/users/2/posts/200"), ("GET", "/users/3/posts/300")]);
    let results = analyzer.analyze(&paths);
    assert_eq!(results.len(), 1);
    assert!(results[0].route.contains("{id}"));
    assert!(results[0].route.contains("posts"));
    assert_eq!(results[0].parameters.len(), 2);
}

#[test]
fn test_parameter_type_inference() {
    let analyzer = PathAnalyzer::new();
    assert_eq!(analyzer.infer_type(&vec![s("123"), s("456"), s("789")]), ParameterType::Integer);
    assert_eq!(analyzer.infer_type(&vec![s("abc-def"), s("ghi-jkl")]), ParameterType::Slug);
    assert_eq!(analyzer.infer_type(&vec![s("a b")]), ParameterType::String);
}

#[test]
fn test_routes_ordered_by_count() {
    let analyzer = PathAnalyzer::new();
    let paths = pairs(&[("GET", "/a"), ("POST", "/b"), ("POST", "/b"), ("GET", "/users/1"), ("GET", "/users/2")]);
    let results = analyzer.analyze(&paths);
    let routes: Vec<&str> = results.iter().map(|r| r.route.as_str()).collect();
    assert_eq!(routes[0], "GET /users/{id}");
    assert_eq!(results[0].occurrence_count, 2);
    assert_eq!(results[0].parameters[0].example_values, vec![s("1"), s("2")]);
    assert!(routes.contains(&"POST /b"));
    assert!(routes.contains(&"GET /a"));
}

// ---------------------------------------------------------------- OpenAPI generation

#[test]
fn test_generate_basic_spec() {
    let generator = OpenApiGenerator::new().with_title(s("Test API")).with_version(s("1.0.0"));
    let spans = vec![span("GET", "/users", 200), span("GET", "/users/1", 200), span("GET", "/users/2", 200)];
    let spec = generator.generate(&spans, &GeneratorConfig::default());
    assert_eq!(text_at(&spec, &["openapi"]), Some(s("3.0.3")));
    assert_eq!(text_at(&spec, &["info", "title"]), Some(s("Test API")));
    assert!(is_object(at(&spec, &["paths"])));
}

#[test]
fn openapi_generator_test_generate_with_request_body() {
    let generator = OpenApiGenerator::new();
    let mut sp = span("POST", "/users", 201);
    sp.request_body = Some(CapturedBody {
        content_type: Some(s("application/json")),
        size: 50,
        data: BodyData::Json(obj(vec![("name", jstr("John")), ("email", jstr("john@example.com"))])),
    });
    sp.response_body = Some(CapturedBody {
        content_type: Some(s("application/json")),
        size: 100,
        data: BodyData::Json(obj(vec![("id", num(1)), ("name", jstr("John")), ("email", jstr("john@example.com"))])),
    });
    let spec = generator.generate(&[sp], &GeneratorConfig::default());
    assert!(is_object(at(&spec, &["paths", "/users", "post", "requestBody"])));
    assert!(is_object(at(&spec, &["paths", "/users", "post", "responses", "201"])));
    assert_eq!(text_at(&spec, &["paths", "/users", "post", "responses", "201", "description"]), Some(s("Created")));
    assert_eq!(
        text_at(&spec, &["paths", "/users", "post", "requestBody", "content", "application/json", "schema", "properties", "email", "format"]),
        Some(s("email"))
    );
    assert_eq!(
        text_at(&spec, &["paths", "/users", "post", "requestBody", "content", "application/json", "example", "name"]),
        Some(s("John"))
    );
}

#[test]
fn test_operation_id_generation() {
    let generator = OpenApiGenerator::new();
    assert_eq!(generator.generate_operation_id("GET", "/users"), "getUsers");
    assert_eq!(generator.generate_operation_id("GET", "/users/{id}"), "getUsersById");
    assert_eq!(generator.generate_operation_id("POST", "/users/{userId}/posts"), "postUsersByUserIdPosts");
}

#[test]
fn test_generate_parameters_and_defaults() {
    let generator = OpenApiGenerator::new().with_base_url(s("http://api.local"));
    let mut a = span("GET", "/users/1", 200);
    a.query = Some(s("limit=10&limit=20"));
    let b = span("GET", "/users/2", 404);
    let spec = generator.generate(&[a, b], &GeneratorConfig::default());
    assert_eq!(text_at(&spec, &["info", "title"]), Some(s("Generated API")));
    assert_eq!(text_at(&spec, &["info", "version"]), Some(s("1.0.0")));
    match at(&spec, &["servers"]) {
        Some(JsonValue::Array(v)) => assert_eq!(text_at(&v[0], &["url"]), Some(s("http://api.local"))),
        _ => panic!("expected servers"),
    }
    let op = at(&spec, &["paths", "/users/{id}", "get"]).expect("operation");
    assert_eq!(text_at(op, &["operationId"]), Some(s("getUsersById")));
    match at(op, &["parameters"]) {
        Some(JsonValue::Array(ps)) => {
            assert_eq!(ps.len(), 2);
            assert_eq!(text_at(&ps[0], &["name"]), Some(s("id")));
            assert_eq!(text_at(&ps[0], &["in"]), Some(s("path")));
            assert!(matches!(at(&ps[0], &["required"]), Some(JsonValue::Bool(true))));
            assert_eq!(text_at(&ps[0], &["schema", "type"]), Some(s("integer")));
            assert_eq!(text_at(&ps[0], &["example"]), Some(s("1")));
            assert_eq!(text_at(&ps[1], &["name"]), Some(s("limit")));
            assert_eq!(text_at(&ps[1], &["in"]), Some(s("query")));
            assert_eq!(text_at(&ps[1], &["example"]), Some(s("10")));
        },
        _ => panic!("expected parameters"),
    }
    // No JSON response body was seen: the default response stands alone.
    assert_eq!(text_at(op, &["responses", "200", "description"]), Some(s("Successful response")));
    assert!(at(op, &["responses", "404"]).is_none());
}

#[test]
fn test_generate_without_inference() {
    let generator = OpenApiGenerator::new();
    let config = GeneratorConfig { infer_params: false, infer_schemas: false, include_examples: false, direction_filter: None };
    let spec = generator.generate(&[span("GET", "/users/1", 200), span("GET", "/users/2", 200)], &config);
    assert!(is_object(at(&spec, &["paths", "/users/1", "get"])));
    assert!(is_object(at(&spec, &["paths", "/users/2", "get"])));
    let outgoing_only = GeneratorConfig { direction_filter: Some(SpanDirection::Outgoing), ..GeneratorConfig::default() };
    let spec = generator.generate(&[span("GET", "/users/1", 200)], &outgoing_only);
    assert!(matches!(at(&spec, &["paths"]), Some(JsonValue::Object(ms)) if ms.is_empty()));
}

#[test]
fn member_insert_keeps_names_in_order() {
    let mut ms: Vec<(String, JsonValue)> = Vec::new();
    map_insert_exec(&mut ms, "b".to_string(), JsonValue::Bool(true));
    map_insert_exec(&mut ms, "a".to_string(), JsonValue::Null);
    map_insert_exec(&mut ms, "c".to_string(), JsonValue::Bool(false));
    map_insert_exec(&mut ms, "b".to_string(), JsonValue::Null);
    let names: Vec<&str> = ms.iter().map(|(k, _)| k.as_str()).collect();
    assert_eq!(names, vec!["a", "b", "c"]);
    assert!(matches!(ms[1].1, JsonValue::Null));
    assert!(matches!(ms[2].1, JsonValue::Bool(false)));
}
