//! Generation of API stubs (WireMock mappings and native stubs) from the
//! outgoing calls observed in traces.

use vstd::prelude::*;
use crate::json::{Json, JsonValue};
use crate::text::{chars_of, decimal, seq_contains, decimal_u64, entries_view, entry_insert, insert_entry, lowercase, opt_view, replace_char, replace_char_spec, str_eq, string_of, to_lowercase, trim_start_char, trim_start_char_spec, views_of};
use crate::tracer::generators::arazzo_generator::{pairs_view, query_pairs, valid_order, ArazzoGenerator};
use crate::tracer::inference::openapi_generator::{document_for, GeneratorConfig, OpenApiGenerator};
use crate::tracer::types::{BodyData, HttpSpan, SpanDirection};

verus! {

/// Supported stub output formats.
#[derive(Debug, Clone, Copy, PartialEq, Eq, Structural)]
pub enum StubFormat {
    /// WireMock JSON mappings.
    WireMock,
    /// Prism mock server (OpenAPI with examples).
    Prism,
    /// Native stub format.
    Native,
}

/// Generates API stubs from HTTP spans.
pub struct StubGenerator {
    pub format: StubFormat,
}

/// Configuration of stub generation.
pub struct StubGeneratorConfig {
    /// Only hosts whose address contains this text, when given.
    pub host_filter: Option<String>,
    /// Include request matchers.
    pub include_request_matchers: bool,
    /// Include response headers.
    pub include_headers: bool,
    /// Include responses with status codes of 400 and above.
    pub include_error_responses: bool,
}

impl Default for StubGeneratorConfig {
    fn default() -> (c: Self)
        ensures
            c.host_filter is None,
            c.include_request_matchers,
            c.include_headers,
            c.include_error_responses,
    {
        StubGeneratorConfig {
            host_filter: None,
            include_request_matchers: true,
            include_headers: true,
            include_error_responses: true,
        }
    }
}

/// A WireMock matcher.
pub struct WireMockMatcher {
    pub equal_to: Option<String>,
    pub matches: Option<String>,
    pub contains: Option<String>,
}

/// A WireMock body pattern.
pub struct WireMockBodyPattern {
    pub equal_to_json: Option<JsonValue>,
    pub matches_json_path: Option<String>,
}

/// The request side of a WireMock mapping.
pub struct WireMockRequest {
    pub method: String,
    pub url_path: String,
    /// Query parameter matchers, each name once.
    pub query_parameters: Option<Vec<(String, WireMockMatcher)>>,
    /// Header matchers, each name once.
    pub headers: Option<Vec<(String, WireMockMatcher)>>,
    pub body_patterns: Option<Vec<WireMockBodyPattern>>,
}

/// The response side of a WireMock mapping.
pub struct WireMockResponse {
    pub status: u16,
    /// Response headers, each name once.
    pub headers: Option<Vec<(String, String)>>,
    pub body: Option<String>,
    pub json_body: Option<JsonValue>,
}

/// A WireMock mapping.
pub struct WireMockMapping {
    /// Unique mapping ID.
    pub id: String,
    pub request: WireMockRequest,
    pub response: WireMockResponse,
    pub priority: Option<i32>,
}

/// The service a native stub stands for.
pub struct ServiceInfo {
    pub host: String,
    pub port: u16,
    pub name: Option<String>,
}

/// When a native response applies.
pub struct NativeRequestMatcher {
    /// Query parameters, each name once.
    pub query: Option<Vec<(String, String)>>,
    /// Headers, each name once.
    pub headers: Option<Vec<(String, String)>>,
    pub body_contains: Option<String>,
}

/// A response of a native stub endpoint.
pub struct NativeResponse {
    pub status: u16,
    pub content_type: Option<String>,
    pub body: Option<JsonValue>,
    /// Response headers, each name once.
    pub headers: Option<Vec<(String, String)>>,
    pub when: Option<NativeRequestMatcher>,
}

/// An endpoint of a native stub.
pub struct NativeEndpoint {
    pub method: String,
    pub path: String,
    pub responses: Vec<NativeResponse>,
}

/// A native stub.
pub struct NativeStub {
    pub version: String,
    pub service: ServiceInfo,
    pub endpoints: Vec<NativeEndpoint>,
}

/// The name–value pairs with each name set to its last value, names in
/// order of first appearance (as collecting into a map keeps them).
pub open spec fn dedup_pairs(pairs: Seq<(Seq<char>, Seq<char>)>, n: int) -> Seq<(Seq<char>, Seq<char>)>
    decreases n,
{
    if n <= 0 || n > pairs.len() {
        Seq::empty()
    } else {
        entry_insert(dedup_pairs(pairs, n - 1), pairs[n - 1].0, pairs[n - 1].1)
    }
}

/// The query of a span as name–value pairs, each name once.
pub open spec fn query_map(q: Seq<char>) -> Seq<(Seq<char>, Seq<char>)> {
    dedup_pairs(query_pairs(q), query_pairs(q).len() as int)
}

/// The name–value pairs of a query, each name once.
fn query_entries(q: &str) -> (r: Vec<(String, String)>)
    ensures
        entries_view(r@) == query_map(q@),
{
    let pairs = ArazzoGenerator::parse_query(q);
    let mut r: Vec<(String, String)> = Vec::new();
    let mut k: usize = 0;
    assert(entries_view(r@) =~= Seq::<(Seq<char>, Seq<char>)>::empty());
    while k < pairs.len()
        invariant
            k <= pairs@.len(),
            pairs_view(pairs@) == query_pairs(q@),
            entries_view(r@) == dedup_pairs(pairs_view(pairs@), k as int),
        decreases pairs.len() - k,
    {
        insert_entry(&mut r, pairs[k].0.clone(), pairs[k].1.clone());
        k = k + 1;
    }
    r
}

/// A WireMock mapping's identifier: the lower-cased method, the path with
/// `/` turned into `-` and leading dashes dropped, and the mapping's number.
pub open spec fn mapping_id(span: HttpSpan, i: nat) -> Seq<char> {
    lowercase(span.method@) + "-"@ + trim_start_char_spec(replace_char_spec(span.path@, '/', "-"@), '-') + "-"@
        + decimal(i)
}

/// Equality matchers as name–value pairs.
pub open spec fn matchers_view(m: Seq<(String, WireMockMatcher)>) -> Seq<(Seq<char>, Seq<char>)> {
    m.map_values(|e: (String, WireMockMatcher)| (e.0@, e.1.equal_to.unwrap()@))
}

/// Every matcher is an equality matcher.
pub open spec fn equality_matchers(m: Seq<(String, WireMockMatcher)>) -> bool {
    forall|i: int| 0 <= i < m.len() ==> (#[trigger] m[i]).1.equal_to is Some && m[i].1.matches is None
        && m[i].1.contains is None
}

/// `m` is the WireMock mapping number `i` for `span`.
pub open spec fn wiremock_for(m: WireMockMapping, span: HttpSpan, i: nat, config: StubGeneratorConfig) -> bool {
    &&& m.id@ == mapping_id(span, i)
    &&& m.request.method@ == span.method@
    &&& m.request.url_path@ == span.path@
    &&& match (config.include_request_matchers, span.query) {
        (true, Some(q)) => match m.request.query_parameters {
            Some(qp) => equality_matchers(qp@) && matchers_view(qp@) == query_map(q@),
            None => false,
        },
        _ => m.request.query_parameters is None,
    }
    &&& m.request.headers is None
    &&& match (config.include_request_matchers, span.request_body) {
        (true, Some(b)) => match b.data {
            BodyData::Json(j) => match m.request.body_patterns {
                Some(ps) => ps@.len() == 1 && (match ps@[0].equal_to_json {
                    Some(e) => e@ == j@,
                    None => false,
                }) && ps@[0].matches_json_path is None,
                None => false,
            },
            _ => m.request.body_patterns is None,
        },
        _ => m.request.body_patterns is None,
    }
    &&& m.response.status == span.status_code
    &&& match span.response_body {
        Some(b) => match b.data {
            BodyData::Json(j) => m.response.body is None && (match m.response.json_body {
                Some(e) => e@ == j@,
                None => false,
            }),
            BodyData::Text(t) => opt_view(m.response.body) == Some(t@) && m.response.json_body is None,
            _ => m.response.body is None && m.response.json_body is None,
        },
        None => m.response.body is None && m.response.json_body is None,
    }
    &&& if config.include_headers {
        match m.response.headers {
            Some(h) => entries_view(h@) == seq![
                (
                    "Content-Type"@,
                    match span.response_body {
                        Some(b) => match b.content_type {
                            Some(c) => c@,
                            None => "application/json"@,
                        },
                        None => "application/json"@,
                    },
                ),
            ],
            None => false,
        }
    } else {
        m.response.headers is None
    }
    &&& m.priority is None
}

impl StubGenerator {
    /// A generator of stubs in the given format.
    pub fn new(format: StubFormat) -> (g: Self)
        ensures
            g.format == format,
    {
        StubGenerator { format }
    }

    /// The name–value pairs of a query string.
    pub fn parse_query(query: &str) -> (r: Vec<(String, String)>)
        ensures
            pairs_view(r@) == query_pairs(query@),
    {
        ArazzoGenerator::parse_query(query)
    }

    /// The WireMock mapping number `i` for a span.
    fn wiremock_mapping(span: &HttpSpan, i: usize, config: &StubGeneratorConfig) -> (m: WireMockMapping)
        ensures
            wiremock_for(m, *span, i as nat, *config),
    {
        let pc = chars_of(span.path.as_str());
        let dash = chars_of("-");
        let replaced = replace_char(pc.as_slice(), '/', dash.as_slice());
        let trimmed = trim_start_char(replaced.as_slice(), '-');
        let mut id = to_lowercase(span.method.as_str());
        id.append("-");
        id.append(string_of(trimmed.as_slice()).as_str());
        id.append("-");
        id.append(decimal_u64(i as u64).as_str());

        let query_parameters = if config.include_request_matchers {
            match &span.query {
                Some(q) => {
                    let entries = query_entries(q.as_str());
                    let mut qp: Vec<(String, WireMockMatcher)> = Vec::new();
                    let mut k: usize = 0;
                    while k < entries.len()
                        invariant
                            k <= entries@.len(),
                            equality_matchers(qp@),
                            matchers_view(qp@) == entries_view(entries@).subrange(0, k as int),
                        decreases entries.len() - k,
                    {
                        let matcher = WireMockMatcher { equal_to: Some(entries[k].1.clone()), matches: None, contains: None };
                        let ghost before = qp@;
                        let name = entries[k].0.clone();
                        let ghost item = (name, matcher);
                        qp.push((name, matcher));
                        assert(qp@ == before.push(item));
                        assert(matchers_view(qp@) =~= matchers_view(before).push((entries@[k as int].0@, entries@[k as int].1@)));
                        assert(matchers_view(qp@) =~= entries_view(entries@).subrange(0, k + 1));
                        k = k + 1;
                    }
                    assert(entries_view(entries@).subrange(0, k as int) =~= entries_view(entries@));
                    Some(qp)
                },
                None => None,
            }
        } else {
            None
        };
        let body_patterns = if config.include_request_matchers {
            match &span.request_body {
                Some(b) => match &b.data {
                    BodyData::Json(j) => Some(vec![WireMockBodyPattern { equal_to_json: Some(j.copy()), matches_json_path: None }]),
                    _ => None,
                },
                None => None,
            }
        } else {
            None
        };
        let (body, json_body): (Option<String>, Option<JsonValue>) = match &span.response_body {
            Some(b) => match &b.data {
                BodyData::Json(j) => (None, Some(j.copy())),
                BodyData::Text(t) => (Some(t.clone()), None),
                _ => (None, None),
            },
            None => (None, None),
        };
        let headers = if config.include_headers {
            let ct = match &span.response_body {
                Some(b) => match &b.content_type {
                    Some(c) => c.clone(),
                    None => String::from_str("application/json"),
                },
                None => String::from_str("application/json"),
            };
            let h = vec![(String::from_str("Content-Type"), ct)];
            assert(entries_view(h@) =~= seq![("Content-Type"@, ct@)]);
            Some(h)
        } else {
            None
        };
        WireMockMapping {
            id,
            request: WireMockRequest {
                method: span.method.clone(),
                url_path: span.path.clone(),
                query_parameters,
                headers: None,
                body_patterns,
            },
            response: WireMockResponse { status: span.status_code, headers, body, json_body },
            priority: None,
        }
    }

    /// One WireMock mapping per span in `order`, numbered from 0.
    pub fn generate_wiremock(&self, spans: &[HttpSpan], order: &[usize], config: &StubGeneratorConfig) -> (v: Vec<WireMockMapping>)
        requires
            valid_order(order@, spans@.len()),
        ensures
            v@.len() == order@.len(),
            forall|i: int| 0 <= i < order@.len() ==> wiremock_for(#[trigger] v@[i], spans@[order@[i] as int], i as nat, *config),
    {
        let mut v: Vec<WireMockMapping> = Vec::new();
        let mut i: usize = 0;
        while i < order.len()
            invariant
                i <= order@.len(),
                valid_order(order@, spans@.len()),
                v@.len() == i,
                forall|k: int| 0 <= k < i ==> wiremock_for(#[trigger] v@[k], spans@[order@[k] as int], k as nat, *config),
            decreases order.len() - i,
        {
            v.push(Self::wiremock_mapping(&spans[order[i]], i, config));
            i = i + 1;
        }
        v
    }
}


// ---------------------------------------------------------------- native stubs

/// The position of the group whose spans have this method and path.
pub open spec fn endpoint_group_of(spans: Seq<HttpSpan>, groups: Seq<Seq<usize>>, m: Seq<char>, p: Seq<char>, from: int) -> Option<int>
    decreases groups.len() - from,
{
    if from < 0 || from >= groups.len() {
        None
    } else if groups[from].len() > 0 && spans[groups[from][0] as int].method@ == m && spans[groups[from][0] as int].path@ == p {
        Some(from)
    } else {
        endpoint_group_of(spans, groups, m, p, from + 1)
    }
}

/// A group found by `endpoint_group_of` lies in range.
proof fn lemma_endpoint_group_of(spans: Seq<HttpSpan>, groups: Seq<Seq<usize>>, m: Seq<char>, p: Seq<char>, from: int)
    requires
        endpoint_group_of(spans, groups, m, p, from) is Some,
    ensures
        from <= endpoint_group_of(spans, groups, m, p, from).unwrap() < groups.len(),
    decreases groups.len() - from,
{
    if !(from < 0 || from >= groups.len()) && !(groups[from].len() > 0 && spans[groups[from][0] as int].method@ == m
        && spans[groups[from][0] as int].path@ == p) {
        lemma_endpoint_group_of(spans, groups, m, p, from + 1);
    }
}

/// The first `n` positions of `order` grouped by method and path: groups
/// in order of first appearance, positions in order within a group.
pub open spec fn endpoint_groups(spans: Seq<HttpSpan>, order: Seq<usize>, n: int) -> Seq<Seq<usize>>
    decreases n,
{
    if n <= 0 || n > order.len() {
        Seq::empty()
    } else {
        let gs = endpoint_groups(spans, order, n - 1);
        let j = order[n - 1];
        match endpoint_group_of(spans, gs, spans[j as int].method@, spans[j as int].path@, 0) {
            Some(g) => gs.update(g, gs[g].push(j)),
            None => gs.push(seq![j]),
        }
    }
}

/// Every group is non-empty and names spans.
pub open spec fn valid_span_groups(gs: Seq<Seq<usize>>, n: nat) -> bool {
    forall|g: int| 0 <= g < gs.len() ==> #[trigger] gs[g].len() > 0 && valid_order(gs[g], n)
}

/// Grouping by endpoint yields non-empty groups of positions of spans.
proof fn lemma_endpoint_groups_valid(spans: Seq<HttpSpan>, order: Seq<usize>, n: int)
    requires
        valid_order(order, spans.len()),
        0 <= n <= order.len(),
    ensures
        valid_span_groups(endpoint_groups(spans, order, n), spans.len()),
    decreases n,
{
    if n > 0 {
        lemma_endpoint_groups_valid(spans, order, n - 1);
        let gs = endpoint_groups(spans, order, n - 1);
        let j = order[n - 1];
        match endpoint_group_of(spans, gs, spans[j as int].method@, spans[j as int].path@, 0) {
            Some(g) => {
                lemma_endpoint_group_of(spans, gs, spans[j as int].method@, spans[j as int].path@, 0);
                assert(valid_span_groups(gs.update(g, gs[g].push(j)), spans.len()));
            },
            None => {
                assert(valid_span_groups(gs.push(seq![j]), spans.len()));
            },
        }
    }
}

/// Groups as sequences of positions.
pub open spec fn span_groups_view(gs: Seq<Vec<usize>>) -> Seq<Seq<usize>> {
    gs.map_values(|g: Vec<usize>| g@)
}

/// `r` is the native response recorded for `span`.
pub open spec fn native_response_for(r: NativeResponse, span: HttpSpan, config: StubGeneratorConfig) -> bool {
    &&& r.status == span.status_code
    &&& opt_view(r.content_type) == match span.response_body {
        Some(b) => opt_view(b.content_type),
        None => None,
    }
    &&& match span.response_body {
        Some(b) => match b.data {
            BodyData::Json(j) => match r.body {
                Some(v) => v@ == j@,
                None => false,
            },
            BodyData::Text(t) => match r.body {
                Some(v) => v@ == Json::Str(t@),
                None => false,
            },
            _ => r.body is None,
        },
        None => r.body is None,
    }
    &&& if config.include_headers && span.response_headers@.len() > 0 {
        match r.headers {
            Some(h) => entries_view(h@) == entries_view(span.response_headers@),
            None => false,
        }
    } else {
        r.headers is None
    }
    &&& match (config.include_request_matchers, span.query) {
        (true, Some(q)) => match r.when {
            Some(w) => (match w.query {
                Some(qm) => entries_view(qm@) == query_map(q@),
                None => false,
            }) && w.headers is None && w.body_contains is None,
            None => false,
        },
        _ => r.when is None,
    }
}

/// `e` is the endpoint of the spans at `group`.
pub open spec fn native_endpoint_for(e: NativeEndpoint, spans: Seq<HttpSpan>, group: Seq<usize>, config: StubGeneratorConfig) -> bool {
    &&& e.method@ == spans[group[0] as int].method@
    &&& e.path@ == spans[group[0] as int].path@
    &&& e.responses@.len() == group.len()
    &&& forall|k: int| 0 <= k < group.len() ==> native_response_for(#[trigger] e.responses@[k], spans[group[k] as int], config)
}

/// `n` is the native stub of the service at `host:port` for the spans in
/// `order`: one endpoint per method and path, one response per span.
pub open spec fn native_stub_for(n: NativeStub, host: Seq<char>, port: u16, spans: Seq<HttpSpan>, order: Seq<usize>, config: StubGeneratorConfig) -> bool {
    let groups = endpoint_groups(spans, order, order.len() as int);
    &&& n.version@ == "1.0.0"@
    &&& n.service.host@ == host
    &&& n.service.port == port
    &&& n.service.name is None
    &&& n.endpoints@.len() == groups.len()
    &&& forall|g: int| 0 <= g < groups.len() ==> native_endpoint_for(#[trigger] n.endpoints@[g], spans, groups[g], config)
}

/// A copy of name–value pairs.
fn copy_pairs(v: &Vec<(String, String)>) -> (r: Vec<(String, String)>)
    ensures
        entries_view(r@) == entries_view(v@),
{
    let mut r: Vec<(String, String)> = Vec::new();
    let mut k: usize = 0;
    while k < v.len()
        invariant
            k <= v@.len(),
            entries_view(r@) == entries_view(v@).subrange(0, k as int),
        decreases v.len() - k,
    {
        let ghost before = r@;
        let a = v[k].0.clone();
        let b = v[k].1.clone();
        r.push((a, b));
        assert(entries_view(r@) =~= entries_view(before).push((v@[k as int].0@, v@[k as int].1@)));
        assert(entries_view(r@) =~= entries_view(v@).subrange(0, k + 1));
        k = k + 1;
    }
    assert(entries_view(v@).subrange(0, k as int) =~= entries_view(v@));
    r
}

impl StubGenerator {
    /// The native response recorded for a span.
    fn native_response(span: &HttpSpan, config: &StubGeneratorConfig) -> (r: NativeResponse)
        ensures
            native_response_for(r, *span, *config),
    {
        let body: Option<JsonValue> = match &span.response_body {
            Some(b) => match &b.data {
                BodyData::Json(j) => Some(j.copy()),
                BodyData::Text(t) => Some(JsonValue::String(t.clone())),
                _ => None,
            },
            None => None,
        };
        let headers = if config.include_headers && span.response_headers.len() > 0 {
            Some(copy_pairs(&span.response_headers))
        } else {
            None
        };
        let when = if config.include_request_matchers {
            match &span.query {
                Some(q) => Some(NativeRequestMatcher { query: Some(query_entries(q.as_str())), headers: None, body_contains: None }),
                None => None,
            }
        } else {
            None
        };
        let content_type = match &span.response_body {
            Some(b) => b.content_type.clone(),
            None => None,
        };
        NativeResponse { status: span.status_code, content_type, body, headers, when }
    }

    /// The group whose spans have the method and path of span `j`.
    fn find_endpoint_group(spans: &[HttpSpan], groups: &Vec<Vec<usize>>, j: usize) -> (r: Option<usize>)
        requires
            valid_span_groups(span_groups_view(groups@), spans@.len()),
            j < spans@.len(),
        ensures
            match r {
                Some(g) => endpoint_group_of(spans@, span_groups_view(groups@), spans@[j as int].method@, spans@[j as int].path@, 0)
                    == Some(g as int),
                None => endpoint_group_of(spans@, span_groups_view(groups@), spans@[j as int].method@, spans@[j as int].path@, 0) is None,
            },
    {
        let ghost gs = span_groups_view(groups@);
        let mut g: usize = 0;
        while g < groups.len()
            invariant
                g <= groups@.len(),
                gs == span_groups_view(groups@),
                gs.len() == groups@.len(),
                valid_span_groups(gs, spans@.len()),
                j < spans@.len(),
                endpoint_group_of(spans@, gs, spans@[j as int].method@, spans@[j as int].path@, 0) == endpoint_group_of(
                    spans@,
                    gs,
                    spans@[j as int].method@,
                    spans@[j as int].path@,
                    g as int,
                ),
            decreases groups.len() - g,
        {
            assert(gs[g as int] == groups@[g as int]@);
            assert(gs[g as int].len() > 0);
            let first = groups[g][0];
            if str_eq(spans[first].method.as_str(), spans[j].method.as_str()) && str_eq(
                spans[first].path.as_str(),
                spans[j].path.as_str(),
            ) {
                return Some(g);
            }
            g = g + 1;
        }
        None
    }

    /// The positions in `order` grouped by method and path.
    fn group_by_endpoint(spans: &[HttpSpan], order: &[usize]) -> (r: Vec<Vec<usize>>)
        requires
            valid_order(order@, spans@.len()),
        ensures
            span_groups_view(r@) == endpoint_groups(spans@, order@, order@.len() as int),
            valid_span_groups(span_groups_view(r@), spans@.len()),
    {
        let mut groups: Vec<Vec<usize>> = Vec::new();
        let mut k: usize = 0;
        assert(span_groups_view(groups@) =~= Seq::<Seq<usize>>::empty());
        while k < order.len()
            invariant
                k <= order@.len(),
                valid_order(order@, spans@.len()),
                span_groups_view(groups@) == endpoint_groups(spans@, order@, k as int),
                valid_span_groups(span_groups_view(groups@), spans@.len()),
            decreases order.len() - k,
        {
            let j = order[k];
            let ghost gs = span_groups_view(groups@);
            let found = Self::find_endpoint_group(spans, &groups, j);
            match found {
                Some(g) => {
                    proof { lemma_endpoint_group_of(spans@, gs, spans@[j as int].method@, spans@[j as int].path@, 0); }
                    let mut inner: Vec<usize> = Vec::new();
                    groups.set_and_swap(g, &mut inner);
                    inner.push(j);
                    groups.set_and_swap(g, &mut inner);
                    assert(span_groups_view(groups@) =~= gs.update(g as int, gs[g as int].push(j)));
                },
                None => {
                    let mut fresh: Vec<usize> = Vec::new();
                    fresh.push(j);
                    groups.push(fresh);
                    assert(span_groups_view(groups@) =~= gs.push(seq![j]));
                },
            }
            proof { lemma_endpoint_groups_valid(spans@, order@, k + 1); }
            k = k + 1;
        }
        groups
    }

    /// The native stub of the service at `host:port` for the spans in
    /// `order`.
    pub fn generate_native(&self, host: &str, port: u16, spans: &[HttpSpan], order: &[usize], config: &StubGeneratorConfig) -> (n: NativeStub)
        requires
            valid_order(order@, spans@.len()),
        ensures
            native_stub_for(n, host@, port, spans@, order@, *config),
    {
        let groups = Self::group_by_endpoint(spans, order);
        let ghost gv = span_groups_view(groups@);
        let mut endpoints: Vec<NativeEndpoint> = Vec::new();
        let mut g: usize = 0;
        while g < groups.len()
            invariant
                g <= groups@.len(),
                gv == span_groups_view(groups@),
                gv.len() == groups@.len(),
                valid_span_groups(gv, spans@.len()),
                endpoints@.len() == g,
                forall|i: int| 0 <= i < g ==> native_endpoint_for(#[trigger] endpoints@[i], spans@, gv[i], *config),
            decreases groups.len() - g,
        {
            let group = &groups[g];
            assert(gv[g as int] == group@);
            assert(group@.len() > 0 && valid_order(group@, spans@.len()));
            let mut responses: Vec<NativeResponse> = Vec::new();
            let mut k: usize = 0;
            while k < group.len()
                invariant
                    k <= group@.len(),
                    valid_order(group@, spans@.len()),
                    responses@.len() == k,
                    forall|i: int| 0 <= i < k ==> native_response_for(#[trigger] responses@[i], spans@[group@[i] as int], *config),
                decreases group.len() - k,
            {
                responses.push(Self::native_response(&spans[group[k]], config));
                k = k + 1;
            }
            let first = group[0];
            endpoints.push(NativeEndpoint { method: spans[first].method.clone(), path: spans[first].path.clone(), responses });
            g = g + 1;
        }
        NativeStub {
            version: String::from_str("1.0.0"),
            service: ServiceInfo { host: String::from_str(host), port, name: None },
            endpoints,
        }
    }
}


// ---------------------------------------------------------------- stubs per host

/// The stubs of one host.
pub struct GeneratedStubs {
    /// Host this stub is for.
    pub host: String,
    /// Port.
    pub port: u16,
    /// Stubs in the chosen format.
    pub stubs: StubOutput,
}

/// Stubs in one of the formats.
pub enum StubOutput {
    WireMock(Vec<WireMockMapping>),
    /// OpenAPI with examples.
    Prism(JsonValue),
    Native(NativeStub),
}

/// A span that stubs are made from: an outgoing call to a host that passes
/// the host filter, with an error status only where errors are included.
pub open spec fn stub_span(span: HttpSpan, config: StubGeneratorConfig) -> bool {
    &&& span.direction == SpanDirection::Outgoing
    &&& match config.host_filter {
        Some(h) => seq_contains(span.server_address@, h@),
        None => true,
    }
    &&& (config.include_error_responses || span.status_code < 400)
}

/// The positions of the first `n` spans that stubs are made from.
pub open spec fn stub_positions(spans: Seq<HttpSpan>, config: StubGeneratorConfig, n: int) -> Seq<usize>
    decreases n,
{
    if n <= 0 || n > spans.len() {
        Seq::empty()
    } else if stub_span(spans[n - 1], config) {
        stub_positions(spans, config, n - 1).push((n - 1) as usize)
    } else {
        stub_positions(spans, config, n - 1)
    }
}

/// The position of the group whose spans call this host and port.
pub open spec fn host_group_of(spans: Seq<HttpSpan>, groups: Seq<Seq<usize>>, host: Seq<char>, port: u16, from: int) -> Option<int>
    decreases groups.len() - from,
{
    if from < 0 || from >= groups.len() {
        None
    } else if groups[from].len() > 0 && spans[groups[from][0] as int].server_address@ == host
        && spans[groups[from][0] as int].server_port == port {
        Some(from)
    } else {
        host_group_of(spans, groups, host, port, from + 1)
    }
}

/// The spans at the first `n` positions of `idx` grouped by host and port,
/// groups in order of first appearance.
pub open spec fn host_groups(spans: Seq<HttpSpan>, idx: Seq<usize>, n: int) -> Seq<Seq<usize>>
    decreases n,
{
    if n <= 0 || n > idx.len() {
        Seq::empty()
    } else {
        let gs = host_groups(spans, idx, n - 1);
        let j = idx[n - 1];
        match host_group_of(spans, gs, spans[j as int].server_address@, spans[j as int].server_port, 0) {
            Some(g) => gs.update(g, gs[g].push(j)),
            None => gs.push(seq![j]),
        }
    }
}

/// The configuration of OpenAPI generation for Prism stubs.
pub open spec fn prism_config() -> GeneratorConfig {
    GeneratorConfig {
        infer_params: true,
        infer_schemas: true,
        include_examples: true,
        direction_filter: Some(SpanDirection::Outgoing),
    }
}

/// The OpenAPI generator for Prism stubs: titled `Dependency API Stub`,
/// version `1.0.0`, with the default analyzers.
pub open spec fn prism_generator(g: OpenApiGenerator) -> bool {
    &&& g.title@ == "Dependency API Stub"@
    &&& g.version@ == "1.0.0"@
    &&& g.base_url is None
    &&& g.schema_inferrer.max_examples == 3
    &&& g.path_analyzer.min_unique_values == 2
    &&& g.path_analyzer.max_unique_percent == 80
}

/// The stubs of the spans of one host group in the generator's format.
pub open spec fn stubs_for(out: GeneratedStubs, g: StubGenerator, spans: Seq<HttpSpan>, group: Seq<usize>, config: StubGeneratorConfig) -> bool {
    let first = spans[group[0] as int];
    &&& out.host@ == first.server_address@
    &&& out.port == first.server_port
    &&& match out.stubs {
        StubOutput::WireMock(v) => {
            &&& g.format == StubFormat::WireMock
            &&& v@.len() == group.len()
            &&& forall|i: int| 0 <= i < group.len() ==> wiremock_for(#[trigger] v@[i], spans[group[i] as int], i as nat, config)
        },
        StubOutput::Prism(j) => {
            &&& g.format == StubFormat::Prism
            &&& exists|og: OpenApiGenerator| prism_generator(og) && j@ == #[trigger] document_for(og, spans, group, prism_config())
        },
        StubOutput::Native(n) => {
            &&& g.format == StubFormat::Native
            &&& native_stub_for(n, first.server_address@, first.server_port, spans, group, config)
        },
    }
}

/// Grouping yields non-empty groups of positions of spans.
proof fn lemma_host_groups_valid(spans: Seq<HttpSpan>, idx: Seq<usize>, n: int)
    requires
        valid_order(idx, spans.len()),
        0 <= n <= idx.len(),
    ensures
        valid_span_groups(host_groups(spans, idx, n), spans.len()),
    decreases n,
{
    if n > 0 {
        lemma_host_groups_valid(spans, idx, n - 1);
        let gs = host_groups(spans, idx, n - 1);
        let j = idx[n - 1];
        match host_group_of(spans, gs, spans[j as int].server_address@, spans[j as int].server_port, 0) {
            Some(g) => {
                lemma_host_group_of(spans, gs, spans[j as int].server_address@, spans[j as int].server_port, 0);
                assert(valid_span_groups(gs.update(g, gs[g].push(j)), spans.len()));
            },
            None => {
                assert(valid_span_groups(gs.push(seq![j]), spans.len()));
            },
        }
    }
}

/// A group found by `host_group_of` lies in range.
proof fn lemma_host_group_of(spans: Seq<HttpSpan>, gs: Seq<Seq<usize>>, host: Seq<char>, port: u16, from: int)
    requires
        host_group_of(spans, gs, host, port, from) is Some,
    ensures
        from <= host_group_of(spans, gs, host, port, from).unwrap() < gs.len(),
    decreases gs.len() - from,
{
    if !(from < 0 || from >= gs.len()) && !(gs[from].len() > 0 && spans[gs[from][0] as int].server_address@ == host
        && spans[gs[from][0] as int].server_port == port) {
        lemma_host_group_of(spans, gs, host, port, from + 1);
    }
}

impl StubGenerator {
    /// The positions of the spans that stubs are made from.
    fn stub_candidates(spans: &[HttpSpan], config: &StubGeneratorConfig) -> (r: Vec<usize>)
        ensures
            r@ == stub_positions(spans@, *config, spans@.len() as int),
            valid_order(r@, spans@.len()),
    {
        let mut r: Vec<usize> = Vec::new();
        let mut k: usize = 0;
        while k < spans.len()
            invariant
                k <= spans@.len(),
                r@ == stub_positions(spans@, *config, k as int),
                valid_order(r@, spans@.len()),
            decreases spans.len() - k,
        {
            let span = &spans[k];
            let host_ok = match &config.host_filter {
                Some(h) => {
                    let a = chars_of(span.server_address.as_str());
                    let b = chars_of(h.as_str());
                    crate::text::contains(a.as_slice(), b.as_slice())
                },
                None => true,
            };
            if span.direction == SpanDirection::Outgoing && host_ok && (config.include_error_responses || span.status_code < 400) {
                r.push(k);
            }
            k = k + 1;
        }
        r
    }

    /// The position of the group whose spans call this host and port.
    fn find_host_group(spans: &[HttpSpan], groups: &Vec<Vec<usize>>, host: &str, port: u16) -> (r: Option<usize>)
        requires
            valid_span_groups(span_groups_view(groups@), spans@.len()),
        ensures
            match r {
                Some(g) => g < groups@.len() && host_group_of(spans@, span_groups_view(groups@), host@, port, 0) == Some(g as int),
                None => host_group_of(spans@, span_groups_view(groups@), host@, port, 0) is None,
            },
    {
        let ghost gv = span_groups_view(groups@);
        let mut g: usize = 0;
        while g < groups.len()
            invariant
                g <= groups@.len(),
                gv == span_groups_view(groups@),
                gv.len() == groups@.len(),
                valid_span_groups(gv, spans@.len()),
                host_group_of(spans@, gv, host@, port, 0) == host_group_of(spans@, gv, host@, port, g as int),
            decreases groups.len() - g,
        {
            assert(gv[g as int] == groups@[g as int]@);
            assert(gv[g as int].len() > 0 && valid_order(gv[g as int], spans@.len()));
            let first = groups[g][0];
            if str_eq(spans[first].server_address.as_str(), host) && spans[first].server_port == port {
                return Some(g);
            }
            g = g + 1;
        }
        None
    }

    /// The spans at `idx` grouped by host and port.
    fn group_by_host(spans: &[HttpSpan], idx: &Vec<usize>) -> (r: Vec<Vec<usize>>)
        requires
            valid_order(idx@, spans@.len()),
        ensures
            span_groups_view(r@) == host_groups(spans@, idx@, idx@.len() as int),
            valid_span_groups(span_groups_view(r@), spans@.len()),
    {
        let mut groups: Vec<Vec<usize>> = Vec::new();
        assert(span_groups_view(groups@) =~= Seq::<Seq<usize>>::empty());
        let mut k: usize = 0;
        while k < idx.len()
            invariant
                k <= idx@.len(),
                valid_order(idx@, spans@.len()),
                span_groups_view(groups@) == host_groups(spans@, idx@, k as int),
                valid_span_groups(span_groups_view(groups@), spans@.len()),
            decreases idx.len() - k,
        {
            let j = idx[k];
            assert(j < spans@.len());
            let ghost gv = span_groups_view(groups@);
            proof { lemma_host_groups_valid(spans@, idx@, k + 1); }
            match Self::find_host_group(spans, &groups, spans[j].server_address.as_str(), spans[j].server_port) {
                Some(g) => {
                    let mut grp = groups.remove(g);
                    assert(grp@ == gv[g as int]);
                    grp.push(j);
                    let ghost ng = grp@;
                    groups.insert(g, grp);
                    assert(span_groups_view(groups@) =~= gv.update(g as int, ng));
                },
                None => {
                    let grp = vec![j];
                    assert(grp@ =~= seq![j]);
                    groups.push(grp);
                    assert(span_groups_view(groups@) =~= gv.push(seq![j]));
                },
            }
            k = k + 1;
        }
        groups
    }

    /// The stubs for the outgoing calls among the spans, one entry per host
    /// and port in order of first appearance.
    pub fn generate(&self, spans: &[HttpSpan], config: &StubGeneratorConfig) -> (r: Vec<GeneratedStubs>)
        ensures
            r@.len() == host_groups(spans@, stub_positions(spans@, *config, spans@.len() as int), stub_positions(spans@, *config, spans@.len() as int).len() as int).len(),
            forall|i: int| 0 <= i < r@.len() ==> stubs_for(#[trigger] r@[i], *self, spans@, host_groups(spans@, stub_positions(spans@, *config, spans@.len() as int), stub_positions(spans@, *config, spans@.len() as int).len() as int)[i], *config),
    {
        let idx = Self::stub_candidates(spans, config);
        let groups = Self::group_by_host(spans, &idx);
        let ghost gv = span_groups_view(groups@);
        let mut out: Vec<GeneratedStubs> = Vec::new();
        let mut g: usize = 0;
        while g < groups.len()
            invariant
                g <= groups@.len(),
                gv == span_groups_view(groups@),
                gv.len() == groups@.len(),
                valid_span_groups(gv, spans@.len()),
                out@.len() == g,
                forall|i: int| 0 <= i < g ==> stubs_for(#[trigger] out@[i], *self, spans@, gv[i], *config),
            decreases groups.len() - g,
        {
            let group = &groups[g];
            assert(gv[g as int] == group@);
            assert(group@.len() > 0 && valid_order(group@, spans@.len()));
            let first = group[0];
            let host = spans[first].server_address.clone();
            let port = spans[first].server_port;
            let stubs = match self.format {
                StubFormat::WireMock => StubOutput::WireMock(self.generate_wiremock(spans, group.as_slice(), config)),
                StubFormat::Prism => {
                    let og = OpenApiGenerator::new()
                        .with_title(String::from_str("Dependency API Stub"))
                        .with_version(String::from_str("1.0.0"));
                    let oc = GeneratorConfig {
                        infer_params: true,
                        infer_schemas: true,
                        include_examples: true,
                        direction_filter: Some(SpanDirection::Outgoing),
                    };
                    let j = og.generate_at(spans, group, &oc);
                    assert(prism_generator(og) && j@ == document_for(og, spans@, group@, prism_config()));
                    StubOutput::Prism(j)
                },
                StubFormat::Native => StubOutput::Native(self.generate_native(host.as_str(), port, spans, group.as_slice(), config)),
            };
            let item = GeneratedStubs { host, port, stubs };
            assert(stubs_for(item, *self, spans@, gv[g as int], *config));
            out.push(item);
            g = g + 1;
        }
        out
    }
}

// ---------------------------------------------------------------- files

/// The name of the file a host's stubs are written to: the host with each
/// `.` made `_`, then `_` and the port, then `_mappings.json` for WireMock,
/// `_openapi.yaml` for Prism or `_stub.yaml` for the native format.
pub open spec fn stub_file_name_of(host: Seq<char>, port: u16, out: StubOutput) -> Seq<char> {
    replace_char_spec(host, '.', "_"@) + "_"@ + decimal(port as nat) + match out {
        StubOutput::WireMock(_) => "_mappings.json"@,
        StubOutput::Prism(_) => "_openapi.yaml"@,
        StubOutput::Native(_) => "_stub.yaml"@,
    }
}

/// The name of the file a host's stubs are written to.
pub fn stub_file_name(stubs: &GeneratedStubs) -> (s: String)
    ensures
        s@ == stub_file_name_of(stubs.host@, stubs.port, stubs.stubs),
{
    let h = chars_of(stubs.host.as_str());
    let under = chars_of("_");
    let mut s = string_of(replace_char(h.as_slice(), '.', under.as_slice()).as_slice());
    s.append("_");
    s.append(decimal_u64(stubs.port as u64).as_str());
    match &stubs.stubs {
        StubOutput::WireMock(_) => s.append("_mappings.json"),
        StubOutput::Prism(_) => s.append("_openapi.yaml"),
        StubOutput::Native(_) => s.append("_stub.yaml"),
    }
    s
}

} // verus!
