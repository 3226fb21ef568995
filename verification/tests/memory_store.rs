use hornet2::tracer::store::MemoryStore;
use hornet2::tracer::types::{HttpSpan, SpanDirection, TraceConfig, TraceSession, TraceStatistics};

fn create_test_session() -> TraceSession {
    TraceSession {
        id: "test-session".to_string(),
        name: Some("Test Session".to_string()),
        started_at: 1_700_000_000_000_000_000,
        ended_at: None,
        config: TraceConfig::default(),
        statistics: TraceStatistics::default(),
    }
}

fn session_started(id: &str, started_at: i64) -> TraceSession {
    TraceSession {
        id: id.to_string(),
        name: None,
        started_at,
        ended_at: None,
        config: TraceConfig::default(),
        statistics: TraceStatistics::default(),
    }
}

fn create_test_span(trace_id: &str, span_id: &str) -> HttpSpan {
    HttpSpan {
        trace_id: trace_id.to_string(),
        span_id: span_id.to_string(),
        parent_span_id: None,
        start_time: 0,
        end_time: 100_000_000,
        service_name: "test-service".to_string(),
        service_version: None,
        direction: SpanDirection::Incoming,
        method: "GET".to_string(),
        path: "/api/users".to_string(),
        route: Some("/api/users".to_string()),
        query: None,
        scheme: "https".to_string(),
        status_code: 200,
        server_address: "localhost".to_string(),
        server_port: 8080,
        client_address: None,
        request_body: None,
        response_body: None,
        request_headers: vec![],
        response_headers: vec![],
        attributes: vec![],
    }
}

#[test]
fn test_session_crud() {
    let mut store = MemoryStore::new();
    let session = create_test_session();
    let id = session.id.clone();

    store.create_session(session).unwrap();

    let retrieved = store.get_session(&id).unwrap();
    assert!(retrieved.is_some());
    assert_eq!(retrieved.unwrap().id, id);

    let sessions = store.list_sessions().unwrap();
    assert_eq!(sessions.len(), 1);

    store.delete_session(&id).unwrap();
    let retrieved = store.get_session(&id).unwrap();
    assert!(retrieved.is_none());
}

#[test]
fn test_span_storage() {
    let mut store = MemoryStore::new();
    let session = create_test_session();
    let id = session.id.clone();
    store.create_session(session).unwrap();

    store.store_span(&id, create_test_span("trace1", "span1")).unwrap();
    store.store_span(&id, create_test_span("trace1", "span2")).unwrap();

    assert_eq!(store.get_span_count(&id).unwrap(), 2);

    let spans = store.get_spans(&id, 0, 10).unwrap();
    assert_eq!(spans.len(), 2);

    let trace_spans = store.get_spans_by_trace_id(&id, "trace1").unwrap();
    assert_eq!(trace_spans.len(), 2);
}

#[test]
fn test_endpoints_and_dependencies() {
    let mut store = MemoryStore::new();
    let session = create_test_session();
    let id = session.id.clone();
    store.create_session(session).unwrap();

    let mut span1 = create_test_span("trace1", "span1");
    span1.direction = SpanDirection::Incoming;
    store.store_span(&id, span1).unwrap();

    let mut span2 = create_test_span("trace1", "span2");
    span2.direction = SpanDirection::Outgoing;
    span2.server_address = "external-api.com".to_string();
    span2.server_port = 443;
    store.store_span(&id, span2).unwrap();

    let endpoints = store.get_endpoints(&id).unwrap();
    assert_eq!(endpoints.len(), 1);

    let deps = store.get_dependencies(&id).unwrap();
    assert_eq!(deps.len(), 1);
    assert_eq!(deps[0].0, "external-api.com");
    assert_eq!(deps[0].1, 443);
}

#[test]
fn memory_store_sessions_newest_first() {
    let mut store = MemoryStore::new();
    store.create_session(session_started("a", 10)).unwrap();
    store.create_session(session_started("b", 30)).unwrap();
    store.create_session(session_started("c", 20)).unwrap();
    let ids: Vec<String> = store.list_sessions().unwrap().iter().map(|s| s.id.clone()).collect();
    assert_eq!(ids, vec!["b".to_string(), "c".to_string(), "a".to_string()]);
}

#[test]
fn memory_store_create_replaces_and_clears_spans() {
    let mut store = MemoryStore::new();
    store.create_session(session_started("a", 10)).unwrap();
    store.store_span("a", create_test_span("t", "s1")).unwrap();
    assert_eq!(store.get_span_count("a").unwrap(), 1);
    store.create_session(session_started("a", 50)).unwrap();
    assert_eq!(store.get_span_count("a").unwrap(), 0);
    assert_eq!(store.get_session("a").unwrap().unwrap().started_at, 50);
    assert_eq!(store.list_sessions().unwrap().len(), 1);
}

#[test]
fn memory_store_update_keeps_spans() {
    let mut store = MemoryStore::new();
    store.create_session(session_started("a", 10)).unwrap();
    store.store_span("a", create_test_span("t", "s1")).unwrap();
    let mut changed = session_started("a", 10);
    changed.ended_at = Some(99);
    store.update_session(changed).unwrap();
    assert_eq!(store.get_span_count("a").unwrap(), 1);
    assert_eq!(store.get_session("a").unwrap().unwrap().ended_at, Some(99));
}

#[test]
fn memory_store_unknown_session_is_empty() {
    let mut store = MemoryStore::new();
    store.store_span("missing", create_test_span("t", "s1")).unwrap();
    assert_eq!(store.get_span_count("missing").unwrap(), 0);
    assert!(store.get_spans("missing", 0, 10).unwrap().is_empty());
    assert!(store.get_session("missing").unwrap().is_none());
    assert!(store.get_endpoints("missing").unwrap().is_empty());
    assert!(store.get_dependencies("missing").unwrap().is_empty());
}

#[test]
fn memory_store_pages_and_traces() {
    let mut store = MemoryStore::new();
    store.create_session(session_started("a", 10)).unwrap();
    let spans = vec![
        create_test_span("t1", "s1"),
        create_test_span("t2", "s2"),
        create_test_span("t1", "s3"),
    ];
    store.store_spans("a", spans).unwrap();
    let page: Vec<String> = store.get_spans("a", 1, 5).unwrap().iter().map(|s| s.span_id.clone()).collect();
    assert_eq!(page, vec!["s2".to_string(), "s3".to_string()]);
    assert!(store.get_spans("a", 3, 5).unwrap().is_empty());
    let t1: Vec<String> = store.get_spans_by_trace_id("a", "t1").unwrap().iter().map(|s| s.span_id.clone()).collect();
    assert_eq!(t1, vec!["s1".to_string(), "s3".to_string()]);
}

#[test]
fn memory_store_statistics_and_delete() {
    let mut store = MemoryStore::new();
    store.create_session(session_started("a", 10)).unwrap();
    store.store_span("a", create_test_span("t", "s1")).unwrap();
    let mut stats = TraceStatistics::default();
    stats.total_spans = 7;
    store.update_statistics("a", stats).unwrap();
    assert_eq!(store.get_session("a").unwrap().unwrap().statistics.total_spans, 7);
    assert_eq!(store.get_session("a").unwrap().unwrap().started_at, 10);
    store.delete_session("a").unwrap();
    assert!(store.get_session("a").unwrap().is_none());
    assert_eq!(store.get_span_count("a").unwrap(), 0);
}

#[test]
fn deleting_a_session_keeps_the_others() {
    let mut store = MemoryStore::new();
    store.create_session(session_started("a", 1)).unwrap();
    store.create_session(session_started("b", 2)).unwrap();
    store.store_spans("a", vec![create_test_span("t1", "s1")]).unwrap();
    store.store_spans("b", vec![create_test_span("t2", "s2"), create_test_span("t3", "s3")]).unwrap();
    store.delete_session("a").unwrap();
    assert!(store.get_session("a").unwrap().is_none());
    assert_eq!(store.get_span_count("a").unwrap(), 0);
    assert_eq!(store.get_session("b").unwrap().unwrap().started_at, 2);
    assert_eq!(store.get_span_count("b").unwrap(), 2);
    let spans = store.get_spans("b", 0, 10).unwrap();
    assert_eq!(spans[0].span_id, "s2");
    assert_eq!(spans[1].span_id, "s3");
}
