use hornet2::json::JsonValue;
use hornet2::tracer::config::{parse_bounded, TracerConfig};
use hornet2::tracer::semantic_conventions::attributes::{AttrValue, AttributeExtractor, KeyValue};
use hornet2::tracer::semantic_conventions::{http, server, url};
use hornet2::tracer::span_classifier::SpanClassifier;
use hornet2::tracer::types::{default_capture_bodies, default_max_body_size, BodyData, EndpointKey, HttpSpan, SpanDirection, TraceConfig};

fn s(x: &str) -> String {
    x.to_string()
}

pub fn span(direction: SpanDirection, method: &str, path: &str, host: &str) -> HttpSpan {
    HttpSpan {
        trace_id: s("abc"),
        span_id: s("def"),
        parent_span_id: None,
        start_time: 0,
        end_time: 100_000_000,
        service_name: s("test"),
        service_version: None,
        direction,
        method: s(method),
        path: s(path),
        route: None,
        query: None,
        scheme: s("https"),
        status_code: 200,
        server_address: s(host),
        server_port: 443,
        client_address: None,
        request_body: None,
        response_body: None,
        request_headers: vec![],
        response_headers: vec![],
        attributes: vec![],
    }
}

#[test]
fn test_default_config() {
    let config = TracerConfig::default();
    assert_eq!(config.grpc_port, 4317);
    assert_eq!(config.http_port, 4318);
    assert!(config.capture_bodies);
}

#[test]
fn test_header_capture() {
    let config = TracerConfig::default();
    assert!(config.should_capture_header("Content-Type"));
    assert!(config.should_capture_header("X-Request-ID"));
    assert!(!config.should_capture_header("X-Custom-Header"));
}

#[test]
fn test_header_redaction() {
    let config = TracerConfig::default();
    assert!(config.should_redact_header("Authorization"));
    assert!(config.should_redact_header("Cookie"));
    assert!(!config.should_redact_header("Content-Type"));
}

#[test]
fn test_redact_value() {
    let config = TracerConfig::default();
    assert_eq!(config.redact_value("X-Api-Key", "secret"), "[REDACTED:x-api-key]");
}

#[test]
fn test_semantic_convention_keys() {
    assert_eq!(http::HTTP_REQUEST_METHOD, "http.request.method");
    assert_eq!(http::HTTP_RESPONSE_STATUS_CODE, "http.response.status_code");
    assert_eq!(url::URL_PATH, "url.path");
    assert_eq!(server::SERVER_ADDRESS, "server.address");
}

#[test]
fn test_attribute_extractor() {
    let attrs = vec![
        KeyValue { key: s("a"), value: Some(AttrValue::Str(s("x"))) },
        KeyValue { key: s("n"), value: Some(AttrValue::Int(7)) },
        KeyValue { key: s("a"), value: Some(AttrValue::Str(s("second"))) },
        KeyValue { key: s("b"), value: Some(AttrValue::Bool(true)) },
    ];
    assert_eq!(AttributeExtractor::get_string(&attrs, "a"), Some(s("x")));
    assert_eq!(AttributeExtractor::get_string(&attrs, "n"), None);
    assert_eq!(AttributeExtractor::get_int(&attrs, "n"), Some(7));
    assert_eq!(AttributeExtractor::get_bool(&attrs, "b"), Some(true));
    assert_eq!(AttributeExtractor::get_int(&attrs, "missing"), None);
}

#[test]
fn test_classifier_creation() {
    let classifier = SpanClassifier::new().with_internal_hosts(vec![s("localhost")]).with_body_capture(true, 1024);
    assert!(classifier.capture_bodies);
    assert_eq!(classifier.max_body_size, 1024);
    assert_eq!(classifier.internal_hosts, vec!["localhost"]);
}

#[test]
fn test_is_external_dependency() {
    let classifier = SpanClassifier::new().with_internal_hosts(vec![s("localhost"), s("internal.svc")]);
    let mut sp = span(SpanDirection::Outgoing, "GET", "/api", "external-api.com");
    assert!(classifier.is_external_dependency(&sp));
    sp.server_address = s("localhost");
    assert!(!classifier.is_external_dependency(&sp));
    sp.server_address = s("internal.svc.cluster.local");
    assert!(!classifier.is_external_dependency(&sp));
    sp.direction = SpanDirection::Incoming;
    sp.server_address = s("external-api.com");
    assert!(!classifier.is_external_dependency(&sp));
}

#[test]
fn test_span_direction_names() {
    assert_eq!(SpanDirection::Incoming.as_str(), "incoming");
    assert_eq!(SpanDirection::Outgoing.as_str(), "outgoing");
}

#[test]
fn test_body_data_availability() {
    assert!(BodyData::Json(JsonValue::Object(vec![])).is_available());
    assert!(BodyData::Text(s("hello")).is_available());
    assert!(!BodyData::TooLarge.is_available());
    assert!(!BodyData::NotCaptured.is_available());
}

#[test]
fn test_endpoint_key_from_span() {
    let mut sp = span(SpanDirection::Outgoing, "GET", "/users/123", "api.example.com");
    sp.route = Some(s("/users/{id}"));
    let key = EndpointKey::from_span(&sp);
    assert_eq!(key.method, "GET");
    assert_eq!(key.path, "/users/{id}");
    assert_eq!(key.host, Some(s("api.example.com:443")));
    sp.direction = SpanDirection::Incoming;
    sp.route = None;
    let key = EndpointKey::from_span(&sp);
    assert_eq!(key.path, "/users/123");
    assert_eq!(key.host, None);
}

#[test]
fn test_trace_config_defaults() {
    let c = TraceConfig::default();
    assert!(c.capture_bodies);
    assert_eq!(c.max_body_size, 65536);
    assert!(default_capture_bodies());
    assert_eq!(default_max_body_size(), 65536);
}

#[test]
fn tracer_config_from_settings() {
    let c = TracerConfig::from_settings(
        Some("+5000"),
        Some("70000"),
        Some("/var/traces"),
        Some("60"),
        Some("x12"),
        Some("TRUE"),
        Some("2048"),
    );
    assert_eq!(c.grpc_port, 5000);
    assert_eq!(c.http_port, 4318);
    assert_eq!(c.store_path, "/var/traces");
    assert_eq!(c.session_timeout_secs, 60);
    assert_eq!(c.max_memory_spans, 10000);
    assert!(c.capture_bodies);
    assert_eq!(c.max_body_size, 2048);

    let d = TracerConfig::from_settings(None, None, None, None, None, Some("no"), None);
    assert_eq!(d.grpc_port, 4317);
    assert_eq!(d.store_path, ".hornet2/traces");
    assert!(!d.capture_bodies);
    let e = TracerConfig::from_settings(None, None, None, None, None, Some("1"), None);
    assert!(e.capture_bodies);
}

#[test]
fn parse_bounded_numbers() {
    assert_eq!(parse_bounded("65535", 65535), Some(65535));
    assert_eq!(parse_bounded("65536", 65535), None);
    assert_eq!(parse_bounded("+7", 10), Some(7));
    assert_eq!(parse_bounded("+", 10), None);
    assert_eq!(parse_bounded("", 10), None);
    assert_eq!(parse_bounded("1a", 100), None);
    assert_eq!(parse_bounded("18446744073709551615", u64::MAX), Some(u64::MAX));
    assert_eq!(parse_bounded("18446744073709551616", u64::MAX), None);
}
