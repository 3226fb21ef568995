use hornet2::tracer::session::{new_session, stopped_session, SessionControl};
use hornet2::tracer::types::{HttpSpan, SpanDirection};

fn span(code: u16) -> HttpSpan {
    HttpSpan {
        trace_id: "t".to_string(),
        span_id: "s".to_string(),
        parent_span_id: None,
        start_time: 0,
        end_time: 1,
        service_name: "svc".to_string(),
        service_version: None,
        direction: SpanDirection::Outgoing,
        method: "GET".to_string(),
        path: "/".to_string(),
        route: None,
        query: None,
        scheme: "http".to_string(),
        status_code: code,
        server_address: "h".to_string(),
        server_port: 80,
        client_address: None,
        request_body: None,
        response_body: None,
        request_headers: vec![],
        response_headers: vec![],
        attributes: vec![],
    }
}

#[test]
fn start_count_and_stop() {
    let mut c = SessionControl::new();
    assert!(c.stop().is_none());
    c.start("a".to_string());
    assert_eq!(c.active_session_id.as_deref(), Some("a"));
    c.stats.record_spans(&[span(200), span(404)]);
    let (id, stats) = c.stop().unwrap();
    assert_eq!(id, "a");
    assert_eq!(stats.total_spans, 2);
    assert_eq!(stats.outgoing_requests, 2);
    assert_eq!(stats.status_codes.get(&404), Some(&1));
    assert!(c.active_session_id.is_none());
    assert_eq!(c.stats.total_spans, 2);
    assert!(c.stop().is_none());
    c.start("b".to_string());
    assert_eq!(c.stats.total_spans, 0);
    assert!(c.stats.status_codes.is_empty());
}

#[test]
fn sessions_start_open_and_stop_with_their_counts() {
    let s = new_session("a".to_string(), Some("n".to_string()), 5);
    assert_eq!(s.id, "a");
    assert_eq!(s.started_at, 5);
    assert!(s.ended_at.is_none());
    assert_eq!(s.statistics.total_spans, 0);
    let mut c = SessionControl::new();
    c.start("a".to_string());
    c.stats.record_spans(&[span(200)]);
    let (_, stats) = c.stop().unwrap();
    let done = stopped_session(s, 9, stats);
    assert_eq!(done.ended_at, Some(9));
    assert_eq!(done.started_at, 5);
    assert_eq!(done.name.as_deref(), Some("n"));
    assert_eq!(done.statistics.total_spans, 1);
}
