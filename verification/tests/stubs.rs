use hornet2::json::{JsonNumber, JsonValue};
use hornet2::tracer::generators::stub_generator::{stub_file_name, GeneratedStubs, StubFormat, StubGenerator, StubGeneratorConfig, StubOutput};
use hornet2::tracer::types::{BodyData, CapturedBody, HttpSpan, SpanDirection};

fn s(x: &str) -> String {
    x.to_string()
}

fn outgoing(method: &str, path: &str, status: u16) -> HttpSpan {
    HttpSpan {
        trace_id: s("trace1"),
        span_id: s("span1"),
        parent_span_id: None,
        start_time: 0,
        end_time: 100_000_000,
        service_name: s("test"),
        service_version: None,
        direction: SpanDirection::Outgoing,
        method: s(method),
        path: s(path),
        route: None,
        query: None,
        scheme: s("https"),
        status_code: status,
        server_address: s("external-api.com"),
        server_port: 443,
        client_address: None,
        request_body: None,
        response_body: Some(CapturedBody {
            content_type: Some(s("application/json")),
            size: 50,
            data: BodyData::Json(JsonValue::Object(vec![
                (s("id"), JsonValue::Number(JsonNumber::Int(1))),
                (s("name"), JsonValue::String(s("Test"))),
            ])),
        }),
        request_headers: vec![],
        response_headers: vec![],
        attributes: vec![],
    }
}

#[test]
fn test_generate_wiremock_stubs() {
    let generator = StubGenerator::new(StubFormat::WireMock);
    let spans = vec![outgoing("GET", "/users/1", 200), outgoing("POST", "/users", 201)];
    let result = generator.generate(&spans, &StubGeneratorConfig::default());
    assert_eq!(result.len(), 1);
    assert_eq!(result[0].host, "external-api.com");
    if let StubOutput::WireMock(mappings) = &result[0].stubs {
        assert_eq!(mappings.len(), 2);
        assert_eq!(mappings[0].request.method, "GET");
        assert_eq!(mappings[0].response.status, 200);
    } else {
        panic!("Expected WireMock output");
    }
}

#[test]
fn test_generate_native_stubs() {
    let generator = StubGenerator::new(StubFormat::Native);
    let spans = vec![outgoing("GET", "/users/1", 200)];
    let result = generator.generate(&spans, &StubGeneratorConfig::default());
    assert_eq!(result.len(), 1);
    if let StubOutput::Native(native) = &result[0].stubs {
        assert_eq!(native.service.host, "external-api.com");
        assert_eq!(native.endpoints.len(), 1);
        assert_eq!(native.endpoints[0].responses.len(), 1);
    } else {
        panic!("Expected Native output");
    }
}

#[test]
fn test_host_filter() {
    let generator = StubGenerator::new(StubFormat::WireMock);
    let mut span1 = outgoing("GET", "/users", 200);
    span1.server_address = s("api-a.com");
    let mut span2 = outgoing("GET", "/items", 200);
    span2.server_address = s("api-b.com");
    let config = StubGeneratorConfig { host_filter: Some(s("api-a")), ..Default::default() };
    let result = generator.generate(&[span1, span2], &config);
    assert_eq!(result.len(), 1);
    assert_eq!(result[0].host, "api-a.com");
}

#[test]
fn test_filter_incoming_spans() {
    let generator = StubGenerator::new(StubFormat::WireMock);
    let mut incoming = outgoing("GET", "/users", 200);
    incoming.direction = SpanDirection::Incoming;
    let out = outgoing("GET", "/external", 200);
    let result = generator.generate(&[incoming, out], &StubGeneratorConfig::default());
    assert_eq!(result.len(), 1);
    if let StubOutput::WireMock(mappings) = &result[0].stubs {
        assert_eq!(mappings.len(), 1);
        assert_eq!(mappings[0].request.url_path, "/external");
    }
}

#[test]
fn test_groups_by_host_and_port_and_skips_errors() {
    let generator = StubGenerator::new(StubFormat::WireMock);
    let a = outgoing("GET", "/a", 200);
    let mut b = outgoing("GET", "/b", 200);
    b.server_port = 8443;
    let c = outgoing("GET", "/c", 500);
    let config = StubGeneratorConfig { include_error_responses: false, ..Default::default() };
    let result = generator.generate(&[a, b, c], &config);
    assert_eq!(result.len(), 2);
    assert_eq!(result[0].port, 443);
    assert_eq!(result[1].port, 8443);
    if let StubOutput::WireMock(mappings) = &result[0].stubs {
        assert_eq!(mappings.len(), 1);
        assert_eq!(mappings[0].request.url_path, "/a");
    } else {
        panic!("Expected WireMock output");
    }
}

#[test]
fn test_generate_prism_stubs() {
    let generator = StubGenerator::new(StubFormat::Prism);
    let spans = vec![outgoing("GET", "/users/1", 200), outgoing("GET", "/users/2", 200)];
    let result = generator.generate(&spans, &StubGeneratorConfig::default());
    assert_eq!(result.len(), 1);
    if let StubOutput::Prism(doc) = &result[0].stubs {
        let title = doc.get("info").and_then(|i| i.get("title"));
        assert!(matches!(title, Some(JsonValue::String(t)) if t == "Dependency API Stub"));
        let op = doc.get("paths").and_then(|p| p.get("/users/{id}")).and_then(|p| p.get("get"));
        let example = op
            .and_then(|o| o.get("responses"))
            .and_then(|r| r.get("200"))
            .and_then(|r| r.get("content"))
            .and_then(|c| c.get("application/json"))
            .and_then(|m| m.get("example"))
            .and_then(|e| e.get("name"));
        assert!(matches!(example, Some(JsonValue::String(t)) if t == "Test"));
    } else {
        panic!("Expected Prism output");
    }
}

#[test]
fn stub_file_names() {
    let w = GeneratedStubs { host: "api.example.com".to_string(), port: 443, stubs: StubOutput::WireMock(vec![]) };
    assert_eq!(stub_file_name(&w), "api_example_com_443_mappings.json");
    let p = GeneratedStubs { host: "localhost".to_string(), port: 8080, stubs: StubOutput::Prism(JsonValue::Null) };
    assert_eq!(stub_file_name(&p), "localhost_8080_openapi.yaml");
}
