//! Core data types for trace collection and processing.

use vstd::prelude::*;
use crate::json::JsonValue;
use crate::text::{decimal, decimal_u64};
use std::collections::HashMap;

verus! {

/// A trace session: the spans collected under one identifier.
#[derive(Clone)]
pub struct TraceSession {
    /// Unique session identifier.
    pub id: String,
    /// Optional human-readable name.
    pub name: Option<String>,
    /// Session start time, in nanoseconds since the Unix epoch.
    pub started_at: i64,
    /// Session end time (None while the session is active), in nanoseconds
    /// since the Unix epoch.
    pub ended_at: Option<i64>,
    /// Session configuration.
    pub config: TraceConfig,
    /// Aggregated statistics.
    pub statistics: TraceStatistics,
}

/// Trace collection configuration.
#[derive(Clone)]
pub struct TraceConfig {
    /// Target service names to collect (empty = all).
    pub target_services: Vec<String>,
    /// Target ports to monitor (empty = all).
    pub target_ports: Vec<u16>,
    /// Host patterns treated as external dependencies.
    pub external_hosts: Vec<String>,
    /// Whether to capture request/response bodies.
    pub capture_bodies: bool,
    /// Maximum body size to capture (bytes).
    pub max_body_size: usize,
}

/// Bodies are captured unless configured otherwise.
pub fn default_capture_bodies() -> (b: bool)
    ensures
        b,
{
    true
}

/// The default maximum body size: 64 KiB.
pub fn default_max_body_size() -> (n: usize)
    ensures
        n == 65536,
{
    65536
}

impl Default for TraceConfig {
    fn default() -> (c: Self)
        ensures
            c.target_services@.len() == 0,
            c.target_ports@.len() == 0,
            c.external_hosts@.len() == 0,
            c.capture_bodies,
            c.max_body_size == 65536,
    {
        TraceConfig {
            target_services: Vec::new(),
            target_ports: Vec::new(),
            external_hosts: Vec::new(),
            capture_bodies: default_capture_bodies(),
            max_body_size: default_max_body_size(),
        }
    }
}

/// Aggregated trace statistics.
#[derive(Clone)]
pub struct TraceStatistics {
    /// Total number of spans collected.
    pub total_spans: u64,
    /// Number of incoming (server) requests.
    pub incoming_requests: u64,
    /// Number of outgoing (client) requests.
    pub outgoing_requests: u64,
    /// Number of unique endpoints detected.
    pub unique_endpoints: u64,
    /// Number of unique external dependencies.
    pub unique_dependencies: u64,
    /// How often each status code was seen.
    pub status_codes: HashMap<u16, u64>,
}

impl Default for TraceStatistics {
    fn default() -> (s: Self)
        ensures
            s.total_spans == 0,
            s.incoming_requests == 0,
            s.outgoing_requests == 0,
            s.unique_endpoints == 0,
            s.unique_dependencies == 0,
            s.status_codes@ == Map::<u16, u64>::empty(),
    {
        TraceStatistics {
            total_spans: 0,
            incoming_requests: 0,
            outgoing_requests: 0,
            unique_endpoints: 0,
            unique_dependencies: 0,
            status_codes: HashMap::new(),
        }
    }
}

/// Direction of an HTTP span.
#[derive(Debug, Clone, Copy, PartialEq, Eq, Structural)]
pub enum SpanDirection {
    /// Incoming request (server receiving).
    Incoming,
    /// Outgoing request (client sending, dependency call).
    Outgoing,
}

impl SpanDirection {
    /// The direction's name.
    pub open spec fn name(self) -> Seq<char> {
        match self {
            SpanDirection::Incoming => "incoming"@,
            SpanDirection::Outgoing => "outgoing"@,
        }
    }

    /// The direction's name: `incoming` or `outgoing`.
    pub fn as_str(&self) -> (s: &'static str)
        ensures
            s@ == self.name(),
    {
        match self {
            SpanDirection::Incoming => "incoming",
            SpanDirection::Outgoing => "outgoing",
        }
    }
}

/// Body data representation.
#[derive(Clone)]
pub enum BodyData {
    /// Parsed JSON body.
    Json(JsonValue),
    /// Plain text body.
    Text(String),
    /// Binary data (base64 encoded).
    Binary(String),
    /// Body was too large to capture.
    TooLarge,
    /// Body capture was disabled or not available.
    NotCaptured,
}

impl BodyData {
    /// Whether the body's content is held: JSON, text or binary.
    pub fn is_available(&self) -> (b: bool)
        ensures
            b <==> (self is Json || self is Text || self is Binary),
    {
        match self {
            BodyData::Json(_) | BodyData::Text(_) | BodyData::Binary(_) => true,
            _ => false,
        }
    }
}

/// A captured HTTP body.
#[derive(Clone)]
pub struct CapturedBody {
    /// Content-Type header value.
    pub content_type: Option<String>,
    /// Original body size in bytes.
    pub size: usize,
    /// Body data.
    pub data: BodyData,
}

/// A normalized HTTP span.
#[derive(Clone)]
pub struct HttpSpan {
    /// Trace ID (hex string).
    pub trace_id: String,
    /// Span ID (hex string).
    pub span_id: String,
    /// Parent span ID (if any).
    pub parent_span_id: Option<String>,
    /// Span start time, in nanoseconds since the Unix epoch.
    pub start_time: u64,
    /// Span end time, in nanoseconds since the Unix epoch.
    pub end_time: u64,
    /// Service name from resource attributes.
    pub service_name: String,
    /// Service version (if available).
    pub service_version: Option<String>,
    /// Span direction (incoming/outgoing).
    pub direction: SpanDirection,
    /// HTTP method (GET, POST, etc.).
    pub method: String,
    /// Request path (e.g. /api/users/123).
    pub path: String,
    /// Route template if available (e.g. /api/users/{id}).
    pub route: Option<String>,
    /// Query string (without leading ?).
    pub query: Option<String>,
    /// URL scheme (http/https).
    pub scheme: String,
    /// HTTP status code.
    pub status_code: u16,
    /// Server address (hostname or IP).
    pub server_address: String,
    /// Server port.
    pub server_port: u16,
    /// Client address (if available).
    pub client_address: Option<String>,
    /// Captured request body.
    pub request_body: Option<CapturedBody>,
    /// Captured response body.
    pub response_body: Option<CapturedBody>,
    /// Request headers, each name once.
    pub request_headers: Vec<(String, String)>,
    /// Response headers, each name once.
    pub response_headers: Vec<(String, String)>,
    /// Other span attributes, each name once.
    pub attributes: Vec<(String, JsonValue)>,
}

/// Endpoint key for grouping spans.
pub struct EndpointKey {
    /// HTTP method.
    pub method: String,
    /// Path or route template.
    pub path: String,
    /// Target host (for outgoing requests).
    pub host: Option<String>,
}

/// The `host:port` of an outgoing span's server.
pub open spec fn host_port(span: HttpSpan) -> Seq<char> {
    span.server_address@ + ":"@ + decimal(span.server_port as nat)
}

impl EndpointKey {
    /// The endpoint of a span: its method, its route (or else its path),
    /// and for an outgoing span the `host:port` it was sent to.
    pub fn from_span(span: &HttpSpan) -> (k: Self)
        ensures
            k.method@ == span.method@,
            k.path@ == match span.route {
                Some(r) => r@,
                None => span.path@,
            },
            match k.host {
                Some(h) => span.direction == SpanDirection::Outgoing && h@ == host_port(*span),
                None => span.direction == SpanDirection::Incoming,
            },
    {
        let path = match &span.route {
            Some(r) => r.clone(),
            None => span.path.clone(),
        };
        let host = if span.direction == SpanDirection::Outgoing {
            let mut h = span.server_address.clone();
            h.append(":");
            h.append(decimal_u64(span.server_port as u64).as_str());
            Some(h)
        } else {
            None
        };
        EndpointKey { method: span.method.clone(), path, host }
    }
}

/// An external API being called.
pub struct Dependency {
    /// Host address.
    pub host: String,
    /// Port number.
    pub port: u16,
    /// Endpoints called on this dependency.
    pub endpoints: Vec<DependencyEndpoint>,
    /// Total number of calls.
    pub total_calls: u64,
}

/// An endpoint on a dependency.
pub struct DependencyEndpoint {
    /// HTTP method.
    pub method: String,
    /// Path template.
    pub path: String,
    /// Number of observations.
    pub call_count: u64,
    /// How often each status code was seen.
    pub status_codes: HashMap<u16, u64>,
}


// ---------------------------------------------------------------- counting spans

/// The status counts with one more `code`: its count raised, or the code
/// added with a count of one.
pub open spec fn bump_code(cs: Map<u16, u64>, code: u16) -> Map<u16, u64> {
    cs.insert(code, (code_count(cs, code) + 1) as u64)
}

/// The count under `code`, zero when it has none.
pub open spec fn code_count(cs: Map<u16, u64>, code: u16) -> int {
    if cs.contains_key(code) {
        cs[code] as int
    } else {
        0
    }
}

/// The status counts with the codes of the first `n` spans counted.
pub open spec fn codes_after(cs: Map<u16, u64>, spans: Seq<HttpSpan>, n: int) -> Map<u16, u64>
    decreases n,
{
    if n <= 0 || n > spans.len() {
        cs
    } else {
        bump_code(codes_after(cs, spans, n - 1), spans[n - 1].status_code)
    }
}

/// How many of the first `n` spans have status `code`.
pub open spec fn count_code(spans: Seq<HttpSpan>, code: u16, n: int) -> nat
    decreases n,
{
    if n <= 0 || n > spans.len() {
        0
    } else {
        count_code(spans, code, n - 1) + if spans[n - 1].status_code == code { 1nat } else { 0nat }
    }
}

/// Every count leaves room for `n` more.
pub open spec fn codes_room(cs: Map<u16, u64>, n: int) -> bool {
    forall|c: u16| cs.contains_key(c) ==> #[trigger] cs[c] + n <= u64::MAX
}

/// How many of the first `n` spans have direction `d`.
pub open spec fn count_direction(spans: Seq<HttpSpan>, d: SpanDirection, n: int) -> nat
    decreases n,
{
    if n <= 0 || n > spans.len() {
        0
    } else {
        count_direction(spans, d, n - 1) + if spans[n - 1].direction == d { 1nat } else { 0nat }
    }
}

/// A count of spans of one direction is at most the number counted.
proof fn lemma_count_direction(spans: Seq<HttpSpan>, d: SpanDirection, n: int)
    requires
        0 <= n <= spans.len(),
    ensures
        count_direction(spans, d, n) <= n,
    decreases n,
{
    if n > 0 {
        lemma_count_direction(spans, d, n - 1);
    }
}

/// A count of spans with one status is at most the number counted.
proof fn lemma_count_code(spans: Seq<HttpSpan>, code: u16, n: int)
    requires
        0 <= n <= spans.len(),
    ensures
        count_code(spans, code, n) <= n,
    decreases n,
{
    if n > 0 {
        lemma_count_code(spans, code, n - 1);
    }
}

/// Counting the first `n` spans raises the count under each code by the
/// number of them with that code, and adds no code that none of them has.
proof fn lemma_codes_after(cs: Map<u16, u64>, spans: Seq<HttpSpan>, n: int)
    requires
        0 <= n <= spans.len(),
        codes_room(cs, n),
        n <= u64::MAX,
    ensures
        forall|c: u16| #[trigger] codes_after(cs, spans, n).contains_key(c) <==> (cs.contains_key(c)
            || count_code(spans, c, n) > 0),
        forall|c: u16| #[trigger] code_count(codes_after(cs, spans, n), c) == code_count(cs, c) + count_code(spans, c, n),
    decreases n,
{
    if n > 0 {
        assert(codes_room(cs, n - 1));
        lemma_codes_after(cs, spans, n - 1);
        let prev = codes_after(cs, spans, n - 1);
        let code = spans[n - 1].status_code;
        lemma_count_code(spans, code, n - 1);
        assert(code_count(prev, code) + 1 <= u64::MAX) by {
            if cs.contains_key(code) {
                assert(cs[code] + n <= u64::MAX);
            }
        }
        assert forall|c: u16| #[trigger] code_count(codes_after(cs, spans, n), c) == code_count(cs, c) + count_code(spans, c, n) by {
            assert(code_count(prev, c) == code_count(cs, c) + count_code(spans, c, n - 1));
        }
        assert forall|c: u16| #[trigger] codes_after(cs, spans, n).contains_key(c) <==> (cs.contains_key(c)
            || count_code(spans, c, n) > 0) by {
            assert(prev.contains_key(c) <==> (cs.contains_key(c) || count_code(spans, c, n - 1) > 0));
        }
    }
}

/// Spans of one direction counted among the first `n`, with those of the
/// other, make `n`.
proof fn lemma_directions(spans: Seq<HttpSpan>, n: int)
    requires
        0 <= n <= spans.len(),
    ensures
        count_direction(spans, SpanDirection::Incoming, n) + count_direction(spans, SpanDirection::Outgoing, n) == n,
    decreases n,
{
    if n > 0 {
        lemma_directions(spans, n - 1);
    }
}

/// Each span is counted in exactly one direction: incoming and outgoing
/// requests together make the spans counted.
pub proof fn law_directions_cover_all_spans(spans: Seq<HttpSpan>)
    ensures
        count_direction(spans, SpanDirection::Incoming, spans.len() as int) + count_direction(
            spans,
            SpanDirection::Outgoing,
            spans.len() as int,
        ) == spans.len(),
{
    lemma_directions(spans, spans.len() as int);
}

/// Each span is counted under its own status code: starting from no counts,
/// the count under each code is the number of spans with that code, and
/// only codes that some span has are counted.
pub proof fn law_status_codes_count_each_span(spans: Seq<HttpSpan>, code: u16)
    requires
        spans.len() <= u64::MAX,
    ensures
        codes_after(Map::empty(), spans, spans.len() as int).contains_key(code) <==> count_code(
            spans,
            code,
            spans.len() as int,
        ) > 0,
        code_count(codes_after(Map::empty(), spans, spans.len() as int), code) == count_code(
            spans,
            code,
            spans.len() as int,
        ),
{
    lemma_codes_after(Map::empty(), spans, spans.len() as int);
    assert(code_count(codes_after(Map::empty(), spans, spans.len() as int), code) == code_count(Map::empty(), code)
        + count_code(spans, code, spans.len() as int));
    assert(codes_after(Map::empty(), spans, spans.len() as int).contains_key(code) <==> (Map::<u16, u64>::empty().contains_key(code)
        || count_code(spans, code, spans.len() as int) > 0));
}

impl TraceStatistics {
    /// Counts spans: each one in the total, in its direction, and under its
    /// status code.
    pub fn record_spans(&mut self, spans: &[HttpSpan])
        requires
            old(self).total_spans + spans@.len() <= u64::MAX,
            old(self).incoming_requests + spans@.len() <= u64::MAX,
            old(self).outgoing_requests + spans@.len() <= u64::MAX,
            codes_room(old(self).status_codes@, spans@.len() as int),
        ensures
            final(self).total_spans == old(self).total_spans + spans@.len(),
            final(self).incoming_requests == old(self).incoming_requests + count_direction(spans@, SpanDirection::Incoming, spans@.len() as int),
            final(self).outgoing_requests == old(self).outgoing_requests + count_direction(spans@, SpanDirection::Outgoing, spans@.len() as int),
            final(self).unique_endpoints == old(self).unique_endpoints,
            final(self).unique_dependencies == old(self).unique_dependencies,
            final(self).status_codes@ == codes_after(old(self).status_codes@, spans@, spans@.len() as int),
    {
        broadcast use vstd::std_specs::hash::group_hash_axioms;
        let n = spans.len();
        let mut k: usize = 0;
        while k < n
            invariant
                k <= n == spans@.len(),
                self.total_spans == old(self).total_spans + k,
                self.incoming_requests == old(self).incoming_requests + count_direction(spans@, SpanDirection::Incoming, k as int),
                self.outgoing_requests == old(self).outgoing_requests + count_direction(spans@, SpanDirection::Outgoing, k as int),
                self.unique_endpoints == old(self).unique_endpoints,
                self.unique_dependencies == old(self).unique_dependencies,
                self.status_codes@ == codes_after(old(self).status_codes@, spans@, k as int),
                old(self).total_spans + n <= u64::MAX,
                old(self).incoming_requests + n <= u64::MAX,
                old(self).outgoing_requests + n <= u64::MAX,
                codes_room(self.status_codes@, n - k),
            decreases n - k,
        {
            proof {
                lemma_count_direction(spans@, SpanDirection::Incoming, k as int);
                lemma_count_direction(spans@, SpanDirection::Outgoing, k as int);
            }
            let span = &spans[k];
            self.total_spans = self.total_spans + 1;
            match span.direction {
                SpanDirection::Incoming => {
                    self.incoming_requests = self.incoming_requests + 1;
                },
                SpanDirection::Outgoing => {
                    self.outgoing_requests = self.outgoing_requests + 1;
                },
            }
            let code = span.status_code;
            let ghost cs = self.status_codes@;
            let c: u64 = match self.status_codes.get(&code) {
                Some(c) => *c,
                None => 0,
            };
            assert(c == code_count(cs, code));
            assert(c + 1 <= u64::MAX) by {
                if cs.contains_key(code) {
                    assert(cs[code] + (n - k) <= u64::MAX);
                }
            }
            self.status_codes.insert(code, c + 1);
            assert(self.status_codes@ == bump_code(cs, code));
            assert forall|x: u16| self.status_codes@.contains_key(x) implies #[trigger] self.status_codes@[x] + (n - k - 1)
                <= u64::MAX by {
                if x != code {
                    assert(cs[x] + (n - k) <= u64::MAX);
                }
            }
            k = k + 1;
        }
    }
}

} // verus!
