use hornet2::tracer::store::{dependency_counts, endpoint_counts, page_bounds, spans_of_trace};
use hornet2::tracer::types::{HttpSpan, SpanDirection};

fn s(x: &str) -> String {
    x.to_string()
}

fn span(trace: &str, method: &str, path: &str, route: Option<&str>, dir: SpanDirection, host: &str, port: u16) -> HttpSpan {
    HttpSpan {
        trace_id: s(trace),
        span_id: s("s"),
        parent_span_id: None,
        start_time: 0,
        end_time: 1,
        service_name: s("svc"),
        service_version: None,
        direction: dir,
        method: s(method),
        path: s(path),
        route: route.map(s),
        query: None,
        scheme: s("http"),
        status_code: 200,
        server_address: s(host),
        server_port: port,
        client_address: None,
        request_body: None,
        response_body: None,
        request_headers: vec![],
        response_headers: vec![],
        attributes: vec![],
    }
}

fn sample() -> Vec<HttpSpan> {
    vec![
        span("t1", "GET", "/users/1", Some("/users/{id}"), SpanDirection::Incoming, "localhost", 80),
        span("t1", "GET", "/pay", None, SpanDirection::Outgoing, "pay.example", 443),
        span("t2", "GET", "/users/2", Some("/users/{id}"), SpanDirection::Incoming, "localhost", 80),
        span("t2", "POST", "/pay", None, SpanDirection::Outgoing, "pay.example", 443),
        span("t3", "GET", "/mail", None, SpanDirection::Outgoing, "pay.example", 8443),
    ]
}

#[test]
fn test_endpoint_counts() {
    let counts = endpoint_counts(&sample());
    assert_eq!(
        counts,
        vec![
            (s("GET"), s("/users/{id}"), 2),
            (s("GET"), s("/pay"), 1),
            (s("POST"), s("/pay"), 1),
            (s("GET"), s("/mail"), 1),
        ]
    );
}

#[test]
fn test_dependency_counts() {
    let counts = dependency_counts(&sample());
    assert_eq!(counts, vec![(s("pay.example"), 443, 2), (s("pay.example"), 8443, 1)]);
    assert!(dependency_counts(&[]).is_empty());
}

#[test]
fn test_page_bounds_and_traces() {
    assert_eq!(page_bounds(5, 1, 2), (1, 3));
    assert_eq!(page_bounds(5, 3, 10), (3, 5));
    assert_eq!(page_bounds(5, 5, 1), (0, 0));
    assert_eq!(spans_of_trace(&sample(), "t2"), vec![2, 3]);
    assert!(spans_of_trace(&sample(), "none").is_empty());
}
