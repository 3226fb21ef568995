use hornet2::json::{parse_json, JsonNumber, JsonValue};
use hornet2::tracer::otlp_receiver::{
    collect_http_spans, process_export, ExportTraceServiceRequest, Resource, ResourceSpans, ScopeSpans,
};
use hornet2::tracer::semantic_conventions::attributes::{AttrValue, AttributeExtractor, KeyValue};
use hornet2::tracer::span_classifier::{Span, SpanClassifier};
use hornet2::tracer::types::{BodyData, SpanDirection, TraceStatistics};

fn s(x: &str) -> String {
    x.to_string()
}

fn kv(k: &str, v: AttrValue) -> KeyValue {
    KeyValue { key: s(k), value: Some(v) }
}

fn text(k: &str, v: &str) -> KeyValue {
    kv(k, AttrValue::Str(s(v)))
}

fn num_attr(k: &str, v: i64) -> KeyValue {
    kv(k, AttrValue::Int(v))
}

fn span(kind: i32, attributes: Vec<KeyValue>) -> Span {
    Span {
        trace_id: vec![0x0a, 0xff],
        span_id: vec![0x01],
        parent_span_id: vec![],
        kind,
        start_time_unix_nano: 1_000,
        end_time_unix_nano: 2_000,
        attributes,
    }
}

#[test]
fn test_classify_server_span() {
    let c = SpanClassifier::new();
    let sp = span(
        2,
        vec![
            text("http.request.method", "GET"),
            text("url.path", "/users/1"),
            text("url.scheme", "https"),
            num_attr("http.response.status_code", 200),
            text("custom", "x"),
            num_attr("http.request.body.size", 5),
            text("http.request.body", "{\"a\":1}"),
        ],
    );
    let res = vec![text("service.name", "shop")];
    let h = c.classify(&sp, &res).unwrap();
    assert_eq!(h.trace_id, "0aff");
    assert_eq!(h.span_id, "01");
    assert_eq!(h.parent_span_id, None);
    assert_eq!(h.start_time, 1_000);
    assert_eq!(h.end_time, 2_000);
    assert_eq!(h.service_name, "shop");
    assert_eq!(h.direction, SpanDirection::Incoming);
    assert_eq!(h.method, "GET");
    assert_eq!(h.path, "/users/1");
    assert_eq!(h.status_code, 200);
    assert_eq!(h.server_address, "localhost");
    // No port given: the scheme decides.
    assert_eq!(h.server_port, 443);
    let body = h.request_body.unwrap();
    assert_eq!(body.size, 5);
    assert!(matches!(body.data, BodyData::Json(JsonValue::Object(ref ms)) if ms.len() == 1 && ms[0].0 == "a"));
    assert!(h.response_body.is_none());
    // Only the attribute no field holds is kept, with the body attributes.
    let names: Vec<&str> = h.attributes.iter().map(|(k, _)| k.as_str()).collect();
    assert_eq!(names, vec!["custom", "http.request.body", "http.request.body.size"]);
}

#[test]
fn test_classify_client_defaults_and_refusals() {
    let c = SpanClassifier::new().with_body_capture(true, 3);
    let mut sp = span(
        3,
        vec![
            text("http.request.method", "POST"),
            num_attr("http.response.status_code", 70_000),
            num_attr("http.response.body.size", 10),
            text("http.response.body", "long body"),
        ],
    );
    sp.parent_span_id = vec![0xab, 0x01];
    let h = c.classify(&sp, &[]).unwrap();
    assert_eq!(h.direction, SpanDirection::Outgoing);
    assert_eq!(h.service_name, "unknown");
    assert_eq!(h.path, "/");
    assert_eq!(h.scheme, "http");
    assert_eq!(h.server_port, 80);
    assert_eq!(h.parent_span_id, Some(s("ab01")));
    // The status code is cut to 16 bits, as a cast does.
    assert_eq!(h.status_code, 70_000u32 as u16);
    assert!(matches!(h.response_body.unwrap().data, BodyData::TooLarge));

    // Internal spans and spans without a method are not HTTP requests.
    assert!(c.classify(&span(1, vec![text("http.request.method", "GET")]), &[]).is_none());
    assert!(c.classify(&span(2, vec![text("url.path", "/")]), &[]).is_none());

    // Text bodies that are not JSON stay text; no content means not captured.
    let c = SpanClassifier::new();
    let sp = span(2, vec![text("http.request.method", "GET"), num_attr("http.request.body.size", 3), text("http.request.body", "abc")]);
    assert!(matches!(c.classify(&sp, &[]).unwrap().request_body.unwrap().data, BodyData::Text(ref t) if t == "abc"));
    let sp = span(2, vec![text("http.request.method", "GET"), num_attr("http.request.body.size", 3)]);
    assert!(matches!(c.classify(&sp, &[]).unwrap().request_body.unwrap().data, BodyData::NotCaptured));
    let no_capture = SpanClassifier::new().with_body_capture(false, 100);
    assert!(no_capture.classify(&sp, &[]).unwrap().request_body.is_none());
}

#[test]
fn test_any_value_to_json() {
    let v = AttrValue::KvList(vec![
        kv("b", AttrValue::Bytes(vec![b'h', b'i'])),
        kv("a", AttrValue::Array(vec![AttrValue::Int(-3), AttrValue::Double(Some(s("1.5"))), AttrValue::Double(None)])),
        KeyValue { key: s("skipped"), value: None },
        kv("e", AttrValue::Empty),
        kv("b", AttrValue::Bool(true)),
    ]);
    let j = AttributeExtractor::any_value_to_json(&v);
    match j {
        JsonValue::Object(ms) => {
            let names: Vec<&str> = ms.iter().map(|(k, _)| k.as_str()).collect();
            assert_eq!(names, vec!["a", "b", "e"]);
            assert!(matches!(ms[1].1, JsonValue::Bool(true)));
            assert!(matches!(ms[2].1, JsonValue::Null));
            match &ms[0].1 {
                JsonValue::Array(items) => {
                    assert!(matches!(items[0], JsonValue::Number(JsonNumber::Int(-3))));
                    assert!(matches!(items[1], JsonValue::Number(JsonNumber::Float(ref t)) if t == "1.5"));
                    assert!(matches!(items[2], JsonValue::Null));
                },
                _ => panic!("expected an array"),
            }
        },
        _ => panic!("expected an object"),
    }
    let bytes = AttributeExtractor::any_value_to_json(&AttrValue::Bytes(vec![b'h', b'i']));
    assert!(matches!(bytes, JsonValue::String(ref t) if t == "aGk="));
    let three = AttributeExtractor::any_value_to_json(&AttrValue::Bytes(b"Man".to_vec()));
    assert!(matches!(three, JsonValue::String(ref t) if t == "TWFu"));
}

#[test]
fn test_parse_json() {
    assert!(matches!(parse_json("[1, true, null]"), Some(JsonValue::Array(ref v)) if v.len() == 3));
    assert!(matches!(parse_json("18446744073709551615"), Some(JsonValue::Number(JsonNumber::UInt(u64::MAX)))));
    assert!(parse_json("{oops").is_none());
}

#[test]
fn test_collect_and_count_spans() {
    let server = span(2, vec![text("http.request.method", "GET"), num_attr("http.response.status_code", 200)]);
    let client = span(3, vec![text("http.request.method", "GET"), num_attr("http.response.status_code", 500)]);
    let internal = span(1, vec![text("http.request.method", "GET")]);
    let client2 = span(3, vec![text("http.request.method", "PUT"), num_attr("http.response.status_code", 200)]);
    let request = ExportTraceServiceRequest {
        resource_spans: vec![
            ResourceSpans {
                resource: Some(Resource { attributes: vec![text("service.name", "a")] }),
                scope_spans: vec![ScopeSpans { spans: vec![server, internal] }, ScopeSpans { spans: vec![client] }],
            },
            ResourceSpans { resource: None, scope_spans: vec![ScopeSpans { spans: vec![client2] }] },
        ],
    };
    let c = SpanClassifier::new();
    let spans = collect_http_spans(&c, &request);
    assert_eq!(spans.len(), 3);
    assert_eq!(spans[0].service_name, "a");
    assert_eq!(spans[1].status_code, 500);
    assert_eq!(spans[2].service_name, "unknown");

    let mut stats = TraceStatistics::default();
    assert!(process_export(&None, &c, &mut stats, &request).is_none());
    assert_eq!(stats.total_spans, 0);
    let (sid, got) = process_export(&Some(s("session")), &c, &mut stats, &request).unwrap();
    assert_eq!(sid, "session");
    assert_eq!(got.len(), 3);
    assert_eq!(stats.total_spans, 3);
    assert_eq!(stats.incoming_requests, 1);
    assert_eq!(stats.outgoing_requests, 2);
    assert_eq!(stats.status_codes.len(), 2);
    assert_eq!(stats.status_codes.get(&200), Some(&2));
    assert_eq!(stats.status_codes.get(&500), Some(&1));
}

#[test]
fn classify_keeps_late_times() {
    let c = SpanClassifier::new();
    let mut sp = span(2, vec![text("http.request.method", "GET"), text("url.path", "/x")]);
    sp.start_time_unix_nano = u64::MAX - 10;
    sp.end_time_unix_nano = u64::MAX;
    let h = c.classify(&sp, &[]).unwrap();
    assert_eq!(h.start_time, u64::MAX - 10);
    assert_eq!(h.end_time, u64::MAX);
}
