//! Generation of OpenAPI documents from observed HTTP traffic.

use vstd::prelude::*;
use crate::json::{member_value, Json, JsonNumber, JsonValue};
use crate::text::{chars_of, copy_strings, decimal, decimal_u64, index_of_from, join_spec, lowercase, split_char, str_eq, string_of, to_lowercase, to_uppercase, uppercase, views_of};
use crate::tracer::generators::arazzo_generator::{filtered, query_pairs, valid_order, ArazzoGenerator};
use crate::tracer::inference::path_analyzer::{non_empty, param_views, path_segments, result_view, results_view, ParamView, ParameterType, PathAnalysisResult, PathAnalyzer, analysis, pair_views};
use crate::tracer::inference::schema_inferrer::{convert_json, infer_all, jobj, jstr, law_member_set_is_found, lemma_iviews, lemma_mviews, lookup, map_insert, map_insert_exec, mviews, names_ordered, SchemaInferrer};
use crate::tracer::types::{BodyData, HttpSpan, SpanDirection};

verus! {

/// Generates OpenAPI documents from HTTP spans.
pub struct OpenApiGenerator {
    pub path_analyzer: PathAnalyzer,
    pub schema_inferrer: SchemaInferrer,
    /// Service title.
    pub title: String,
    /// Service version.
    pub version: String,
    /// Base URL for servers.
    pub base_url: Option<String>,
}

/// Configuration of OpenAPI generation.
pub struct GeneratorConfig {
    /// Whether to infer path parameters.
    pub infer_params: bool,
    /// Whether to infer schemas from bodies.
    pub infer_schemas: bool,
    /// Whether to include examples.
    pub include_examples: bool,
    /// Only spans of this direction, when given.
    pub direction_filter: Option<SpanDirection>,
}

impl Default for GeneratorConfig {
    fn default() -> (c: Self)
        ensures
            c.infer_params,
            c.infer_schemas,
            c.include_examples,
            c.direction_filter is None,
    {
        GeneratorConfig { infer_params: true, infer_schemas: true, include_examples: true, direction_filter: None }
    }
}

// ---------------------------------------------------------------- routes and names

/// The route `method path` matches the request: the same method, and
/// segment by segment either a `{...}` placeholder or the same text.
pub open spec fn route_matches(route: Seq<char>, method: Seq<char>, path: Seq<char>) -> bool {
    let parts = split_char(route, ' ');
    let rs = path_segments(parts[1]);
    let ps = path_segments(path);
    &&& parts.len() == 2
    &&& parts[0] == method
    &&& rs.len() == ps.len()
    &&& forall|i: int| 0 <= i < rs.len() ==> (is_placeholder(#[trigger] rs[i]) || rs[i] == ps[i])
}

/// A `{...}` placeholder segment.
pub open spec fn is_placeholder(seg: Seq<char>) -> bool {
    seg.len() > 0 && seg[0] == '{' && seg[seg.len() - 1] == '}'
}

/// The text with its first character upper-cased.
pub open spec fn capitalized(s: Seq<char>) -> Seq<char> {
    if s.len() == 0 {
        Seq::empty()
    } else {
        uppercase(seq![s[0]]) + s.drop_first()
    }
}

/// The operation identifier part of a route segment.
pub open spec fn id_part(seg: Seq<char>) -> Seq<char> {
    if is_placeholder(seg) && seg.len() >= 2 {
        "By"@ + capitalized(seg.subrange(1, seg.len() - 1))
    } else {
        capitalized(seg)
    }
}

/// The operation identifier of a route: the lower-cased method followed
/// by each segment capitalized, a placeholder read as `By` and its name.
pub open spec fn operation_id_of(method: Seq<char>, route: Seq<char>) -> Seq<char> {
    lowercase(method) + join_spec(path_segments(route).map_values(|seg: Seq<char>| id_part(seg)), Seq::empty())
}

/// The description of a status code.
pub open spec fn status_text(code: u16) -> Seq<char> {
    if code == 200 {
        "Successful response"@
    } else if code == 201 {
        "Created"@
    } else if code == 204 {
        "No content"@
    } else if code == 400 {
        "Bad request"@
    } else if code == 401 {
        "Unauthorized"@
    } else if code == 403 {
        "Forbidden"@
    } else if code == 404 {
        "Not found"@
    } else if code == 500 {
        "Internal server error"@
    } else {
        "Response"@
    }
}

/// The schema of a parameter type.
pub open spec fn param_schema(t: ParameterType) -> Json {
    match t {
        ParameterType::Uuid => Json::Object(seq![("format"@, Json::Str("uuid"@)), ("type"@, Json::Str("string"@))]),
        ParameterType::Integer => Json::Object(seq![("type"@, Json::Str("integer"@))]),
        ParameterType::Slug => Json::Object(
            seq![("pattern"@, Json::Str("^[a-zA-Z0-9-_]+$"@)), ("type"@, Json::Str("string"@))],
        ),
        ParameterType::String => Json::Object(seq![("type"@, Json::Str("string"@))]),
    }
}

// ---------------------------------------------------------------- endpoints

/// A parameter of an endpoint: name, location, type, whether required, and
/// examples.
pub type ParamInfoView = (Seq<char>, Seq<char>, ParameterType, bool, Seq<Seq<char>>);

/// An endpoint: the route key it was grouped by, its method and route, its
/// parameters, the JSON request bodies seen, and the JSON response bodies
/// seen per status code.
pub type EndpointView = (Seq<char>, Seq<char>, Seq<char>, Seq<ParamInfoView>, Seq<Json>, Seq<(u16, Seq<Json>)>);

/// The first result, from `from` on, whose route matches the request.
pub open spec fn first_match(results: Seq<(Seq<char>, Seq<ParamView>, nat)>, method: Seq<char>, path: Seq<char>, from: int) -> Option<int>
    decreases results.len() - from,
{
    if from < 0 || from >= results.len() {
        None
    } else if route_matches(results[from].0, method, path) {
        Some(from)
    } else {
        first_match(results, method, path, from + 1)
    }
}

/// The route key of a request: the route of the first matching result, or
/// else `method path`.
pub open spec fn route_key(results: Seq<(Seq<char>, Seq<ParamView>, nat)>, span: HttpSpan) -> Seq<char> {
    match first_match(results, span.method@, span.path@, 0) {
        Some(i) => results[i].0,
        None => span.method@ + " "@ + span.path@,
    }
}

/// The endpoint created for the first request of a route key.
pub open spec fn new_endpoint(results: Seq<(Seq<char>, Seq<ParamView>, nat)>, span: HttpSpan) -> EndpointView {
    let key = route_key(results, span);
    let (method, route) = match index_of_from(key, ' ', 0) {
        Some(k) => (key.subrange(0, k), key.subrange(k + 1, key.len() as int)),
        None => (span.method@, span.path@),
    };
    let params = match first_match(results, span.method@, span.path@, 0) {
        Some(i) => results[i].1.map_values(|p: ParamView| (p.0, "path"@, p.3, true, p.2)),
        None => Seq::empty(),
    };
    (key, method, route, params, Seq::empty(), Seq::empty())
}

/// The parameters with the query parameters of a request added, those not
/// already present by name.
pub open spec fn add_query_params(ps: Seq<ParamInfoView>, q: Seq<(Seq<char>, Seq<char>)>, n: int) -> Seq<ParamInfoView>
    decreases n,
{
    if n <= 0 || n > q.len() {
        ps
    } else {
        let acc = add_query_params(ps, q, n - 1);
        if exists|i: int| 0 <= i < acc.len() && (#[trigger] acc[i]).0 == q[n - 1].0 {
            acc
        } else {
            acc.push((q[n - 1].0, "query"@, ParameterType::String, false, seq![q[n - 1].1]))
        }
    }
}

/// The position of the responses for a status code.
pub open spec fn status_index(rs: Seq<(u16, Seq<Json>)>, code: u16, from: int) -> Option<int>
    decreases rs.len() - from,
{
    if from < 0 || from >= rs.len() {
        None
    } else if rs[from].0 == code {
        Some(from)
    } else {
        status_index(rs, code, from + 1)
    }
}

/// The responses with a body added under its status code.
pub open spec fn add_response(rs: Seq<(u16, Seq<Json>)>, code: u16, body: Json) -> Seq<(u16, Seq<Json>)> {
    match status_index(rs, code, 0) {
        Some(i) => rs.update(i, (code, rs[i].1.push(body))),
        None => rs.push((code, seq![body])),
    }
}

/// The endpoint with a request's query parameters and JSON bodies added.
pub open spec fn record_span(e: EndpointView, span: HttpSpan) -> EndpointView {
    let params = match span.query {
        Some(q) => add_query_params(e.3, query_pairs(q@), query_pairs(q@).len() as int),
        None => e.3,
    };
    let bodies = match span.request_body {
        Some(b) => match b.data {
            BodyData::Json(j) => e.4.push(j@),
            _ => e.4,
        },
        None => e.4,
    };
    let responses = match span.response_body {
        Some(b) => match b.data {
            BodyData::Json(j) => add_response(e.5, span.status_code, j@),
            _ => e.5,
        },
        None => e.5,
    };
    (e.0, e.1, e.2, params, bodies, responses)
}

/// The position of the endpoint with a route key.
pub open spec fn endpoint_index(es: Seq<EndpointView>, key: Seq<char>, from: int) -> Option<int>
    decreases es.len() - from,
{
    if from < 0 || from >= es.len() {
        None
    } else if es[from].0 == key {
        Some(from)
    } else {
        endpoint_index(es, key, from + 1)
    }
}

/// The endpoints of the spans at the first `n` positions of `idx`, in
/// order of first appearance.
pub open spec fn endpoints_of(results: Seq<(Seq<char>, Seq<ParamView>, nat)>, spans: Seq<HttpSpan>, idx: Seq<usize>, n: int) -> Seq<EndpointView>
    decreases n,
{
    if n <= 0 || n > idx.len() {
        Seq::empty()
    } else {
        let es = endpoints_of(results, spans, idx, n - 1);
        let span = spans[idx[n - 1] as int];
        match endpoint_index(es, route_key(results, span), 0) {
            Some(i) => es.update(i, record_span(es[i], span)),
            None => es.push(record_span(new_endpoint(results, span), span)),
        }
    }
}

/// The route analysis of the spans at `idx`: inferred when parameters are
/// inferred, else each request's own `method path`.
pub open spec fn route_results(g: OpenApiGenerator, spans: Seq<HttpSpan>, idx: Seq<usize>, config: GeneratorConfig) -> Seq<(Seq<char>, Seq<ParamView>, nat)> {
    let pairs = idx.map_values(|j: usize| (spans[j as int].method@, spans[j as int].path@));
    if config.infer_params {
        analysis(g.path_analyzer, pairs)
    } else {
        pairs.map_values(|p: (Seq<char>, Seq<char>)| (p.0 + " "@ + p.1, Seq::<ParamView>::empty(), 1nat))
    }
}

// ---------------------------------------------------------------- documents

/// A parameter as an OpenAPI parameter object.
pub open spec fn parameter_json(p: ParamInfoView, config: GeneratorConfig) -> Json {
    let base = map_insert(
        map_insert(
            map_insert(map_insert(Seq::empty(), "name"@, Json::Str(p.0)), "in"@, Json::Str(p.1)),
            "required"@,
            Json::Bool(p.3),
        ),
        "schema"@,
        param_schema(p.2),
    );
    if config.include_examples && p.4.len() > 0 {
        Json::Object(map_insert(base, "example"@, Json::Str(p.4[0])))
    } else {
        Json::Object(base)
    }
}

/// The JSON media type object for bodies: their schema, and the first as
/// example when examples are kept.
pub open spec fn media_json(bodies: Seq<Json>, config: GeneratorConfig, max_examples: usize) -> Json {
    let schema = map_insert(Seq::empty(), "schema"@, convert_json(infer_all(bodies)));
    if config.include_examples && bodies.len() > 0 && max_examples > 0 {
        Json::Object(map_insert(schema, "example"@, bodies[0]))
    } else {
        Json::Object(schema)
    }
}

/// A response object for a status code and the bodies seen with it.
pub open spec fn response_json(code: u16, bodies: Seq<Json>, config: GeneratorConfig, max_examples: usize) -> Json {
    let base = map_insert(Seq::empty(), "description"@, Json::Str(status_text(code)));
    if bodies.len() > 0 && config.infer_schemas {
        Json::Object(map_insert(base, "content"@, Json::Object(seq![("application/json"@, media_json(bodies, config, max_examples))])))
    } else {
        Json::Object(base)
    }
}

/// The responses object of the first `n` status codes.
pub open spec fn responses_json(rs: Seq<(u16, Seq<Json>)>, config: GeneratorConfig, max_examples: usize, n: int) -> Seq<(Seq<char>, Json)>
    decreases n,
{
    if n <= 0 || n > rs.len() {
        Seq::empty()
    } else {
        map_insert(responses_json(rs, config, max_examples, n - 1), decimal(rs[n - 1].0 as nat), response_json(rs[n - 1].0, rs[n - 1].1, config, max_examples))
    }
}

/// The operation object of an endpoint.
pub open spec fn operation_json(e: EndpointView, config: GeneratorConfig, max_examples: usize) -> Json {
    let m0 = map_insert(Seq::empty(), "operationId"@, Json::Str(operation_id_of(e.1, e.2)));
    let m1 = if e.3.len() > 0 {
        map_insert(m0, "parameters"@, Json::Array(e.3.map_values(|p: ParamInfoView| parameter_json(p, config))))
    } else {
        m0
    };
    let m2 = if e.4.len() > 0 && config.infer_schemas {
        map_insert(
            m1,
            "requestBody"@,
            Json::Object(seq![("content"@, Json::Object(seq![("application/json"@, media_json(e.4, config, max_examples))]))]),
        )
    } else {
        m1
    };
    let rs = responses_json(e.5, config, max_examples, e.5.len() as int);
    let rs2 = if rs.len() == 0 {
        seq![("200"@, Json::Object(seq![("description"@, Json::Str("Successful response"@))]))]
    } else {
        rs
    };
    Json::Object(map_insert(m2, "responses"@, Json::Object(rs2)))
}

/// The path item members under a route, or none.
pub open spec fn path_item_members(paths: Seq<(Seq<char>, Json)>, route: Seq<char>) -> Seq<(Seq<char>, Json)> {
    match member_value(paths, route) {
        Some(Json::Object(ms)) => ms,
        _ => Seq::empty(),
    }
}

/// The paths object of the first `n` endpoints: each operation under its
/// route and lower-cased method.
pub open spec fn paths_json(es: Seq<EndpointView>, config: GeneratorConfig, max_examples: usize, n: int) -> Seq<(Seq<char>, Json)>
    decreases n,
{
    if n <= 0 || n > es.len() {
        Seq::empty()
    } else {
        let acc = paths_json(es, config, max_examples, n - 1);
        let e = es[n - 1];
        map_insert(
            acc,
            e.2,
            Json::Object(map_insert(path_item_members(acc, e.2), lowercase(e.1), operation_json(e, config, max_examples))),
        )
    }
}

/// The value under `key`, when it is an object, has its member names in
/// order.
pub open spec fn value_ordered(ms: Seq<(Seq<char>, Json)>, key: Seq<char>) -> bool {
    match member_value(ms, key) {
        Some(Json::Object(items)) => names_ordered(items),
        _ => true,
    }
}

/// Every object value of the map has its member names in order.
pub open spec fn object_values_ordered(ms: Seq<(Seq<char>, Json)>) -> bool {
    forall|key: Seq<char>| #[trigger] value_ordered(ms, key)
}

/// Building the paths of the first `n` endpoints keeps every member list
/// in name order, and files each of them: under its route there is an
/// object with an operation under its lower-cased method.
proof fn lemma_paths_hold_endpoints(es: Seq<EndpointView>, config: GeneratorConfig, max_examples: usize, n: int)
    requires
        0 <= n <= es.len(),
    ensures
        names_ordered(paths_json(es, config, max_examples, n)),
        object_values_ordered(paths_json(es, config, max_examples, n)),
        forall|i: int| 0 <= i < n ==> (match #[trigger] member_value(paths_json(es, config, max_examples, n), es[i].2) {
            Some(Json::Object(ms)) => member_value(ms, lowercase(es[i].1)) is Some,
            _ => false,
        }),
    decreases n,
{
    if n > 0 {
        lemma_paths_hold_endpoints(es, config, max_examples, n - 1);
        let acc = paths_json(es, config, max_examples, n - 1);
        let e = es[n - 1];
        let item = path_item_members(acc, e.2);
        assert(names_ordered(item)) by {
            assert(value_ordered(acc, e.2));
        }
        let op = operation_json(e, config, max_examples);
        let m = lowercase(e.1);
        law_member_set_is_found(item, m, op);
        let new_item = map_insert(item, m, op);
        law_member_set_is_found(acc, e.2, Json::Object(new_item));
        let r = paths_json(es, config, max_examples, n);
        assert(r == map_insert(acc, e.2, Json::Object(new_item)));
        assert forall|key: Seq<char>| #[trigger] value_ordered(r, key) by {
            if key != e.2 {
                assert(member_value(r, key) == member_value(acc, key));
                assert(value_ordered(acc, key));
            }
        }
        assert forall|i: int| 0 <= i < n implies (match #[trigger] member_value(r, es[i].2) {
            Some(Json::Object(ms)) => member_value(ms, lowercase(es[i].1)) is Some,
            _ => false,
        }) by {
            if i < n - 1 {
                if es[i].2 == e.2 {
                    assert(member_value(acc, es[i].2) matches Some(Json::Object(ms)) && member_value(ms, lowercase(es[i].1)) is Some);
                    if lowercase(es[i].1) != m {
                        assert(member_value(new_item, lowercase(es[i].1)) == member_value(item, lowercase(es[i].1)));
                    }
                } else {
                    assert(member_value(r, es[i].2) == member_value(acc, es[i].2));
                }
            }
        }
    }
}

/// Every recorded endpoint is in the paths: under its route, an operation
/// for its lower-cased method, so endpoints that share a route but differ
/// in method all appear.
pub proof fn law_every_endpoint_has_its_operation(es: Seq<EndpointView>, config: GeneratorConfig, max_examples: usize, i: int)
    requires
        0 <= i < es.len(),
    ensures
        member_value(paths_json(es, config, max_examples, es.len() as int), es[i].2) matches Some(Json::Object(ms))
            && member_value(ms, lowercase(es[i].1)) is Some,
{
    lemma_paths_hold_endpoints(es, config, max_examples, es.len() as int);
    assert(match member_value(paths_json(es, config, max_examples, es.len() as int), es[i].2) {
        Some(Json::Object(ms)) => member_value(ms, lowercase(es[i].1)) is Some,
        _ => false,
    });
}

/// The OpenAPI document of the endpoints.
pub open spec fn document_json(g: OpenApiGenerator, es: Seq<EndpointView>, config: GeneratorConfig) -> Json {
    let base = map_insert(
        map_insert(
            map_insert(Seq::empty(), "openapi"@, Json::Str("3.0.3"@)),
            "info"@,
            Json::Object(seq![("title"@, Json::Str(g.title@)), ("version"@, Json::Str(g.version@))]),
        ),
        "paths"@,
        Json::Object(paths_json(es, config, g.schema_inferrer.max_examples, es.len() as int)),
    );
    match g.base_url {
        Some(u) => Json::Object(map_insert(base, "servers"@, Json::Array(seq![Json::Object(seq![("url"@, Json::Str(u@))])]))),
        None => Json::Object(base),
    }
}

/// The OpenAPI document of the spans at `idx`.
pub open spec fn document_for(g: OpenApiGenerator, spans: Seq<HttpSpan>, idx: Seq<usize>, config: GeneratorConfig) -> Json {
    let results = route_results(g, spans, idx, config);
    document_json(g, endpoints_of(results, spans, idx, idx.len() as int), config)
}

/// The OpenAPI document generated from the spans that pass the filter.
pub open spec fn generated_document(g: OpenApiGenerator, spans: Seq<HttpSpan>, config: GeneratorConfig) -> Json {
    document_for(g, spans, filtered(spans, config.direction_filter, spans.len() as int), config)
}


// ---------------------------------------------------------------- executable pieces

/// An endpoint parameter.
pub struct ParameterInfo {
    pub name: String,
    /// `path` or `query`.
    pub location: String,
    pub param_type: ParameterType,
    pub required: bool,
    pub examples: Vec<String>,
}

/// An endpoint's data.
pub struct EndpointData {
    /// The route key the requests were grouped by.
    pub key: String,
    pub method: String,
    pub route: String,
    pub parameters: Vec<ParameterInfo>,
    pub request_bodies: Vec<JsonValue>,
    /// The JSON response bodies per status code, each code once.
    pub responses: Vec<(u16, Vec<JsonValue>)>,
}

/// A parameter as a view.
pub open spec fn param_info_view(p: ParameterInfo) -> ParamInfoView {
    (p.name@, p.location@, p.param_type, p.required, views_of(p.examples@))
}

/// Parameters as views.
pub open spec fn param_infos_view(ps: Seq<ParameterInfo>) -> Seq<ParamInfoView> {
    ps.map_values(|p: ParameterInfo| param_info_view(p))
}

/// Values as views.
pub open spec fn jviews(v: Seq<JsonValue>) -> Seq<Json> {
    v.map_values(|x: JsonValue| x@)
}

/// Responses as views.
pub open spec fn responses_view(rs: Seq<(u16, Vec<JsonValue>)>) -> Seq<(u16, Seq<Json>)> {
    rs.map_values(|r: (u16, Vec<JsonValue>)| (r.0, jviews(r.1@)))
}

/// An endpoint as a view.
pub open spec fn endpoint_view(e: EndpointData) -> EndpointView {
    (e.key@, e.method@, e.route@, param_infos_view(e.parameters@), jviews(e.request_bodies@), responses_view(e.responses@))
}

/// A copy of values.
fn copy_values(v: &Vec<JsonValue>) -> (r: Vec<JsonValue>)
    ensures
        jviews(r@) == jviews(v@),
{
    let mut r: Vec<JsonValue> = Vec::new();
    let mut k: usize = 0;
    while k < v.len()
        invariant
            k <= v@.len(),
            jviews(r@) == jviews(v@).subrange(0, k as int),
        decreases v.len() - k,
    {
        let ghost before = r@;
        let x = v[k].copy();
        r.push(x);
        assert(jviews(r@) =~= jviews(before).push(x@));
        assert(jviews(r@) =~= jviews(v@).subrange(0, k + 1));
        k = k + 1;
    }
    assert(jviews(v@).subrange(0, k as int) =~= jviews(v@));
    r
}

/// An object from members.
fn object_of(ms: Vec<(String, JsonValue)>) -> (r: JsonValue)
    ensures
        r@ == Json::Object(mviews(ms@)),
{
    jobj(ms)
}

/// Whether a segment is a `{...}` placeholder.
fn placeholder(seg: &[char]) -> (r: bool)
    ensures
        r == is_placeholder(seg@),
{
    seg.len() > 0 && seg[0] == '{' && seg[seg.len() - 1] == '}'
}

impl OpenApiGenerator {
    /// The description of a status code.
    fn status_description(code: u16) -> (s: String)
        ensures
            s@ == status_text(code),
    {
        if code == 200 {
            String::from_str("Successful response")
        } else if code == 201 {
            String::from_str("Created")
        } else if code == 204 {
            String::from_str("No content")
        } else if code == 400 {
            String::from_str("Bad request")
        } else if code == 401 {
            String::from_str("Unauthorized")
        } else if code == 403 {
            String::from_str("Forbidden")
        } else if code == 404 {
            String::from_str("Not found")
        } else if code == 500 {
            String::from_str("Internal server error")
        } else {
            String::from_str("Response")
        }
    }

    /// The schema of a parameter type.
    fn param_type_schema(&self, t: ParameterType) -> (r: JsonValue)
        ensures
            r@ == param_schema(t),
    {
        match t {
            ParameterType::Uuid => {
                let ms = vec![(String::from_str("format"), jstr("uuid")), (String::from_str("type"), jstr("string"))];
                assert(mviews(ms@) =~= seq![("format"@, Json::Str("uuid"@)), ("type"@, Json::Str("string"@))]);
                object_of(ms)
            },
            ParameterType::Integer => {
                let ms = vec![(String::from_str("type"), jstr("integer"))];
                assert(mviews(ms@) =~= seq![("type"@, Json::Str("integer"@))]);
                object_of(ms)
            },
            ParameterType::Slug => {
                let ms = vec![(String::from_str("pattern"), jstr("^[a-zA-Z0-9-_]+$")), (String::from_str("type"), jstr("string"))];
                assert(mviews(ms@) =~= seq![("pattern"@, Json::Str("^[a-zA-Z0-9-_]+$"@)), ("type"@, Json::Str("string"@))]);
                object_of(ms)
            },
            ParameterType::String => {
                let ms = vec![(String::from_str("type"), jstr("string"))];
                assert(mviews(ms@) =~= seq![("type"@, Json::Str("string"@))]);
                object_of(ms)
            },
        }
    }

    /// The text with its first character upper-cased.
    fn capitalize(s: &str) -> (r: String)
        ensures
            r@ == capitalized(s@),
    {
        let c = chars_of(s);
        if c.len() == 0 {
            return String::new();
        }
        let first = crate::text::slice_range(c.as_slice(), 0, 1);
        assert(first@ =~= seq![c@[0]]);
        let mut r = to_uppercase(string_of(first.as_slice()).as_str());
        let rest = crate::text::slice_from(c.as_slice(), 1);
        assert(rest@ =~= c@.drop_first());
        crate::text::push_chars(&mut r, rest.as_slice());
        r
    }

    /// The operation identifier of a route.
    pub fn generate_operation_id(&self, method: &str, route: &str) -> (s: String)
        ensures
            s@ == operation_id_of(method@, route@),
    {
        let segs = crate::tracer::inference::path_analyzer::segments_of(route);
        let ghost want = path_segments(route@).map_values(|seg: Seq<char>| id_part(seg));
        let mut parts: Vec<String> = Vec::new();
        let mut k: usize = 0;
        while k < segs.len()
            invariant
                k <= segs@.len(),
                views_of(segs@) == path_segments(route@),
                want == path_segments(route@).map_values(|seg: Seq<char>| id_part(seg)),
                views_of(parts@) == want.subrange(0, k as int),
            decreases segs.len() - k,
        {
            let c = chars_of(segs[k].as_str());
            assert(c@ == path_segments(route@)[k as int]);
            let part = if placeholder(c.as_slice()) && c.len() >= 2 {
                let inner = string_of(crate::text::slice_range(c.as_slice(), 1, c.len() - 1).as_slice());
                let mut p = String::from_str("By");
                p.append(Self::capitalize(inner.as_str()).as_str());
                p
            } else {
                Self::capitalize(segs[k].as_str())
            };
            let ghost before = parts@;
            parts.push(part);
            assert(views_of(parts@) =~= views_of(before).push(part@));
            assert(views_of(parts@) =~= want.subrange(0, k + 1));
            k = k + 1;
        }
        assert(want.subrange(0, k as int) =~= want);
        proof { reveal_strlit(""); }
        assert(""@ =~= Seq::<char>::empty());
        let mut s = to_lowercase(method);
        s.append(crate::text::join(&parts, "").as_str());
        s
    }

    /// Whether the route `method path` matches the request.
    fn matches_route(route: &str, method: &str, path: &str) -> (r: bool)
        ensures
            r == route_matches(route@, method@, path@),
    {
        let rc = chars_of(route);
        let parts = crate::text::split_chars(rc.as_slice(), ' ');
        let ghost pv = parts@.map_values(|v: Vec<char>| v@);
        if parts.len() != 2 {
            return false;
        }
        assert(pv[0] == parts@[0]@ && pv[1] == parts@[1]@);
        let m = chars_of(method);
        if !crate::text::chars_eq(parts[0].as_slice(), m.as_slice()) {
            return false;
        }
        let rs = crate::tracer::inference::path_analyzer::segments_of(string_of(parts[1].as_slice()).as_str());
        let ps = crate::tracer::inference::path_analyzer::segments_of(path);
        if rs.len() != ps.len() {
            return false;
        }
        let mut i: usize = 0;
        while i < rs.len()
            invariant
                i <= rs@.len(),
                rs@.len() == ps@.len(),
                pv == split_char(route@, ' '),
                pv.len() == 2,
                pv[0] == method@,
                views_of(rs@) == path_segments(pv[1]),
                views_of(ps@) == path_segments(path@),
                forall|j: int| 0 <= j < i ==> (is_placeholder(#[trigger] views_of(rs@)[j]) || views_of(rs@)[j] == views_of(ps@)[j]),
            decreases rs.len() - i,
        {
            let r = chars_of(rs[i].as_str());
            let ok = placeholder(r.as_slice()) || str_eq(rs[i].as_str(), ps[i].as_str());
            assert(views_of(rs@)[i as int] == rs@[i as int]@);
            assert(views_of(ps@)[i as int] == ps@[i as int]@);
            if !ok {
                assert(!(is_placeholder(path_segments(pv[1])[i as int]) || path_segments(pv[1])[i as int] == path_segments(path@)[i as int]));
                return false;
            }
            i = i + 1;
        }
        true
    }
}

/// Endpoints as views.
pub open spec fn endpoint_views(es: Seq<EndpointData>) -> Seq<EndpointView> {
    es.map_values(|e: EndpointData| endpoint_view(e))
}

impl OpenApiGenerator {
    /// A parameter as an OpenAPI parameter object.
    fn build_parameter(&self, p: &ParameterInfo, config: &GeneratorConfig) -> (r: JsonValue)
        ensures
            r@ == parameter_json(param_info_view(*p), *config),
    {
        let mut ms: Vec<(String, JsonValue)> = Vec::new();
        assert(mviews(ms@) =~= Seq::<(Seq<char>, Json)>::empty());
        map_insert_exec(&mut ms, String::from_str("name"), JsonValue::String(p.name.clone()));
        map_insert_exec(&mut ms, String::from_str("in"), JsonValue::String(p.location.clone()));
        map_insert_exec(&mut ms, String::from_str("required"), JsonValue::Bool(p.required));
        map_insert_exec(&mut ms, String::from_str("schema"), self.param_type_schema(p.param_type));
        if config.include_examples && p.examples.len() > 0 {
            assert(views_of(p.examples@)[0] == p.examples@[0]@);
            map_insert_exec(&mut ms, String::from_str("example"), JsonValue::String(p.examples[0].clone()));
        }
        jobj(ms)
    }

    /// The JSON media type object for bodies.
    fn build_media(&self, bodies: &Vec<JsonValue>, config: &GeneratorConfig) -> (r: JsonValue)
        ensures
            r@ == media_json(jviews(bodies@), *config, self.schema_inferrer.max_examples),
    {
        let inferred = self.schema_inferrer.infer(bodies);
        assert(bodies@.map_values(|v: JsonValue| v@) =~= jviews(bodies@));
        assert(inferred.examples@.map_values(|v: JsonValue| v@) =~= jviews(inferred.examples@));
        let schema = self.schema_inferrer.to_openapi_schema(&inferred.schema);
        let mut ms: Vec<(String, JsonValue)> = Vec::new();
        assert(mviews(ms@) =~= Seq::<(Seq<char>, Json)>::empty());
        map_insert_exec(&mut ms, String::from_str("schema"), schema);
        if config.include_examples && inferred.examples.len() > 0 {
            assert(jviews(inferred.examples@)[0] == inferred.examples@[0]@);
            map_insert_exec(&mut ms, String::from_str("example"), inferred.examples[0].copy());
        }
        jobj(ms)
    }

    /// `{"application/json": media}`.
    fn json_content(media: JsonValue) -> (r: JsonValue)
        ensures
            r@ == Json::Object(seq![("application/json"@, media@)]),
    {
        let ms = vec![(String::from_str("application/json"), media)];
        assert(mviews(ms@) =~= seq![("application/json"@, media@)]);
        jobj(ms)
    }

    /// A response object for a status code and the bodies seen with it.
    fn build_response(&self, code: u16, bodies: &Vec<JsonValue>, config: &GeneratorConfig) -> (r: JsonValue)
        ensures
            r@ == response_json(code, jviews(bodies@), *config, self.schema_inferrer.max_examples),
    {
        let mut ms: Vec<(String, JsonValue)> = Vec::new();
        assert(mviews(ms@) =~= Seq::<(Seq<char>, Json)>::empty());
        map_insert_exec(&mut ms, String::from_str("description"), JsonValue::String(Self::status_description(code)));
        if bodies.len() > 0 && config.infer_schemas {
            let media = self.build_media(bodies, config);
            map_insert_exec(&mut ms, String::from_str("content"), Self::json_content(media));
        }
        jobj(ms)
    }

    /// The responses object members of an endpoint.
    fn build_responses(&self, rs: &Vec<(u16, Vec<JsonValue>)>, config: &GeneratorConfig) -> (r: Vec<(String, JsonValue)>)
        ensures
            mviews(r@) == responses_json(responses_view(rs@), *config, self.schema_inferrer.max_examples, rs@.len() as int),
    {
        let ghost rv = responses_view(rs@);
        let mut out: Vec<(String, JsonValue)> = Vec::new();
        assert(mviews(out@) =~= Seq::<(Seq<char>, Json)>::empty());
        let mut k: usize = 0;
        while k < rs.len()
            invariant
                k <= rs@.len(),
                rv == responses_view(rs@),
                rv.len() == rs@.len(),
                mviews(out@) == responses_json(rv, *config, self.schema_inferrer.max_examples, k as int),
            decreases rs.len() - k,
        {
            assert(rv[k as int] == (rs@[k as int].0, jviews(rs@[k as int].1@)));
            let code = rs[k].0;
            let resp = self.build_response(code, &rs[k].1, config);
            map_insert_exec(&mut out, decimal_u64(code as u64), resp);
            k = k + 1;
        }
        out
    }

    /// The operation object of an endpoint.
    fn build_operation(&self, e: &EndpointData, config: &GeneratorConfig) -> (r: JsonValue)
        ensures
            r@ == operation_json(endpoint_view(*e), *config, self.schema_inferrer.max_examples),
    {
        let ghost ev = endpoint_view(*e);
        let mut ms: Vec<(String, JsonValue)> = Vec::new();
        assert(mviews(ms@) =~= Seq::<(Seq<char>, Json)>::empty());
        map_insert_exec(&mut ms, String::from_str("operationId"), JsonValue::String(self.generate_operation_id(e.method.as_str(), e.route.as_str())));
        if e.parameters.len() > 0 {
            let ghost want = ev.3.map_values(|p: ParamInfoView| parameter_json(p, *config));
            let mut params: Vec<JsonValue> = Vec::new();
            let mut k: usize = 0;
            while k < e.parameters.len()
                invariant
                    k <= e.parameters@.len(),
                    ev == endpoint_view(*e),
                    want == ev.3.map_values(|p: ParamInfoView| parameter_json(p, *config)),
                    params@.map_values(|v: JsonValue| v@) == want.subrange(0, k as int),
                decreases e.parameters.len() - k,
            {
                let ghost before = params@;
                let x = self.build_parameter(&e.parameters[k], config);
                params.push(x);
                assert(params@.map_values(|v: JsonValue| v@) =~= before.map_values(|v: JsonValue| v@).push(x@));
                assert(params@.map_values(|v: JsonValue| v@) =~= want.subrange(0, k + 1));
                k = k + 1;
            }
            assert(want.subrange(0, k as int) =~= want);
            proof { lemma_iviews(params@); }
            map_insert_exec(&mut ms, String::from_str("parameters"), JsonValue::Array(params));
        }
        if e.request_bodies.len() > 0 && config.infer_schemas {
            let media = self.build_media(&e.request_bodies, config);
            let content = vec![(String::from_str("content"), Self::json_content(media))];
            let ghost cv = mviews(content@);
            assert(cv =~= seq![("content"@, Json::Object(seq![("application/json"@, media@)]))]);
            map_insert_exec(&mut ms, String::from_str("requestBody"), jobj(content));
        }
        let mut rs = self.build_responses(&e.responses, config);
        if rs.len() == 0 {
            let dflt = vec![(String::from_str("description"), jstr("Successful response"))];
            assert(mviews(dflt@) =~= seq![("description"@, Json::Str("Successful response"@))]);
            rs.push((String::from_str("200"), jobj(dflt)));
            assert(mviews(rs@) =~= seq![("200"@, Json::Object(seq![("description"@, Json::Str("Successful response"@))]))]);
        }
        map_insert_exec(&mut ms, String::from_str("responses"), jobj(rs));
        jobj(ms)
    }

    /// The paths object members of the endpoints.
    fn build_paths(&self, es: &Vec<EndpointData>, config: &GeneratorConfig) -> (r: Vec<(String, JsonValue)>)
        ensures
            mviews(r@) == paths_json(endpoint_views(es@), *config, self.schema_inferrer.max_examples, es@.len() as int),
    {
        let ghost ev = endpoint_views(es@);
        let mut acc: Vec<(String, JsonValue)> = Vec::new();
        assert(mviews(acc@) =~= Seq::<(Seq<char>, Json)>::empty());
        let mut k: usize = 0;
        while k < es.len()
            invariant
                k <= es@.len(),
                ev == endpoint_views(es@),
                ev.len() == es@.len(),
                mviews(acc@) == paths_json(ev, *config, self.schema_inferrer.max_examples, k as int),
            decreases es.len() - k,
        {
            let e = &es[k];
            assert(ev[k as int] == endpoint_view(*e));
            let mut item: Vec<(String, JsonValue)> = match lookup(&acc, e.route.as_str()) {
                Some(i) => {
                    let c = acc[i].1.copy();
                    match c {
                        JsonValue::Object(m) => {
                            proof { lemma_mviews(m@); }
                            m
                        },
                        _ => {
                            let none: Vec<(String, JsonValue)> = Vec::new();
                            assert(mviews(none@) =~= Seq::<(Seq<char>, Json)>::empty());
                            none
                        },
                    }
                },
                None => {
                    let none: Vec<(String, JsonValue)> = Vec::new();
                    assert(mviews(none@) =~= Seq::<(Seq<char>, Json)>::empty());
                    none
                },
            };
            assert(mviews(item@) == path_item_members(mviews(acc@), e.route@));
            let op = self.build_operation(e, config);
            map_insert_exec(&mut item, to_lowercase(e.method.as_str()), op);
            map_insert_exec(&mut acc, e.route.clone(), jobj(item));
            k = k + 1;
        }
        acc
    }

    /// The OpenAPI document of the endpoints.
    fn build_openapi_spec(&self, es: &Vec<EndpointData>, config: &GeneratorConfig) -> (r: JsonValue)
        ensures
            r@ == document_json(*self, endpoint_views(es@), *config),
    {
        let mut ms: Vec<(String, JsonValue)> = Vec::new();
        assert(mviews(ms@) =~= Seq::<(Seq<char>, Json)>::empty());
        map_insert_exec(&mut ms, String::from_str("openapi"), jstr("3.0.3"));
        let info = vec![
            (String::from_str("title"), JsonValue::String(self.title.clone())),
            (String::from_str("version"), JsonValue::String(self.version.clone())),
        ];
        assert(mviews(info@) =~= seq![("title"@, Json::Str(self.title@)), ("version"@, Json::Str(self.version@))]);
        map_insert_exec(&mut ms, String::from_str("info"), jobj(info));
        let paths = self.build_paths(es, config);
        map_insert_exec(&mut ms, String::from_str("paths"), jobj(paths));
        match &self.base_url {
            Some(u) => {
                let server = vec![(String::from_str("url"), JsonValue::String(u.clone()))];
                assert(mviews(server@) =~= seq![("url"@, Json::Str(u@))]);
                let items = vec![jobj(server)];
                proof { lemma_iviews(items@); }
                assert(items@.map_values(|v: JsonValue| v@) =~= seq![Json::Object(seq![("url"@, Json::Str(u@))])]);
                map_insert_exec(&mut ms, String::from_str("servers"), JsonValue::Array(items));
            },
            None => {},
        }
        jobj(ms)
    }
}


// ---------------------------------------------------------------- grouping

/// The first result whose route matches the request.
fn first_matching(results: &Vec<PathAnalysisResult>, method: &str, path: &str) -> (r: Option<usize>)
    ensures
        match r {
            Some(i) => i < results@.len() && first_match(results_view(results@), method@, path@, 0) == Some(i as int),
            None => first_match(results_view(results@), method@, path@, 0) is None,
        },
{
    let ghost rv = results_view(results@);
    let mut k: usize = 0;
    while k < results.len()
        invariant
            k <= results@.len(),
            rv == results_view(results@),
            rv.len() == results@.len(),
            first_match(rv, method@, path@, 0) == first_match(rv, method@, path@, k as int),
        decreases results.len() - k,
    {
        assert(rv[k as int].0 == results@[k as int].route@);
        if OpenApiGenerator::matches_route(results[k].route.as_str(), method, path) {
            return Some(k);
        }
        k = k + 1;
    }
    None
}

/// `method path`.
fn method_and_path(method: &str, path: &str) -> (r: String)
    ensures
        r@ == method@ + " "@ + path@,
{
    let mut r = crate::text::owned(method);
    r.append(" ");
    r.append(path);
    r
}

/// The route key of a request.
fn route_key_of(results: &Vec<PathAnalysisResult>, span: &HttpSpan) -> (r: String)
    ensures
        r@ == route_key(results_view(results@), *span),
{
    match first_matching(results, span.method.as_str(), span.path.as_str()) {
        Some(i) => {
            assert(results_view(results@)[i as int].0 == results@[i as int].route@);
            results[i].route.clone()
        },
        None => method_and_path(span.method.as_str(), span.path.as_str()),
    }
}

/// The endpoint created for the first request of a route key.
fn new_endpoint_data(results: &Vec<PathAnalysisResult>, span: &HttpSpan) -> (e: EndpointData)
    ensures
        endpoint_view(e) == new_endpoint(results_view(results@), *span),
{
    let ghost rv = results_view(results@);
    let key = route_key_of(results, span);
    let kc = chars_of(key.as_str());
    let (method, route) = match crate::text::find_char_from(kc.as_slice(), ' ', 0) {
        Some(k) => {
            proof { crate::text::lemma_index_of_from(kc@, ' ', 0); }
            assert(k < kc.len());
            (string_of(crate::text::slice_range(kc.as_slice(), 0, k).as_slice()), string_of(crate::text::slice_from(kc.as_slice(), k + 1).as_slice()))
        },
        None => (span.method.clone(), span.path.clone()),
    };
    let mut parameters: Vec<ParameterInfo> = Vec::new();
    match first_matching(results, span.method.as_str(), span.path.as_str()) {
        Some(i) => {
            let ps = &results[i].parameters;
            let ghost want = rv[i as int].1.map_values(|p: ParamView| (p.0, "path"@, p.3, true, p.2));
            assert(rv[i as int].1 == param_views(ps@));
            let mut k: usize = 0;
            while k < ps.len()
                invariant
                    k <= ps@.len(),
                    want == param_views(ps@).map_values(|p: ParamView| (p.0, "path"@, p.3, true, p.2)),
                    param_infos_view(parameters@) == want.subrange(0, k as int),
                decreases ps.len() - k,
            {
                let p = &ps[k];
                let info = ParameterInfo {
                    name: p.name.clone(),
                    location: String::from_str("path"),
                    param_type: p.param_type,
                    required: true,
                    examples: copy_strings(&p.example_values),
                };
                let ghost before = parameters@;
                parameters.push(info);
                assert(param_infos_view(parameters@) =~= param_infos_view(before).push(param_info_view(info)));
                assert(param_infos_view(parameters@) =~= want.subrange(0, k + 1));
                k = k + 1;
            }
            assert(want.subrange(0, k as int) =~= want);
        },
        None => {
            assert(param_infos_view(parameters@) =~= Seq::<ParamInfoView>::empty());
        },
    }
    let e = EndpointData {
        key,
        method,
        route,
        parameters,
        request_bodies: Vec::new(),
        responses: Vec::new(),
    };
    assert(jviews(e.request_bodies@) =~= Seq::<Json>::empty());
    assert(responses_view(e.responses@) =~= Seq::<(u16, Seq<Json>)>::empty());
    e
}

/// Whether a parameter with the name is present.
fn has_param(ps: &Vec<ParameterInfo>, name: &str) -> (r: bool)
    ensures
        r == exists|i: int| 0 <= i < ps@.len() && (#[trigger] param_infos_view(ps@)[i]).0 == name@,
{
    let ghost pv = param_infos_view(ps@);
    let mut k: usize = 0;
    while k < ps.len()
        invariant
            k <= ps@.len(),
            pv == param_infos_view(ps@),
            forall|i: int| 0 <= i < k ==> (#[trigger] pv[i]).0 != name@,
        decreases ps.len() - k,
    {
        assert(pv[k as int].0 == ps@[k as int].name@);
        if str_eq(ps[k].name.as_str(), name) {
            return true;
        }
        k = k + 1;
    }
    false
}

/// Adds a body under its status code.
fn add_response_body(rs: &mut Vec<(u16, Vec<JsonValue>)>, code: u16, body: JsonValue)
    ensures
        responses_view(final(rs)@) == add_response(responses_view(old(rs)@), code, body@),
{
    let ghost rv = responses_view(rs@);
    let mut k: usize = 0;
    while k < rs.len()
        invariant
            k <= rs@.len(),
            rv == responses_view(rs@),
            rs@ == old(rs)@,
            rv.len() == rs@.len(),
            status_index(rv, code, 0) == status_index(rv, code, k as int),
        decreases rs.len() - k,
    {
        assert(rv[k as int].0 == rs@[k as int].0);
        if rs[k].0 == code {
            let mut bodies = copy_values(&rs[k].1);
            let ghost bv = body@;
            bodies.push(body);
            assert(jviews(bodies@) =~= jviews(rs@[k as int].1@).push(bv));
            rs.set(k, (code, bodies));
            assert(responses_view(rs@) =~= rv.update(k as int, (code, rv[k as int].1.push(bv))));
            return;
        }
        k = k + 1;
    }
    let ghost bv = body@;
    let bodies = vec![body];
    assert(jviews(bodies@) =~= seq![bv]);
    rs.push((code, bodies));
    assert(responses_view(rs@) =~= rv.push((code, seq![bv])));
}

/// Adds a request's query parameters and JSON bodies to its endpoint.
fn record_request(e: &mut EndpointData, span: &HttpSpan)
    ensures
        endpoint_view(*final(e)) == record_span(endpoint_view(*old(e)), *span),
{
    let ghost e0 = endpoint_view(*e);
    match &span.query {
        Some(q) => {
            let pairs = ArazzoGenerator::parse_query(q.as_str());
            let ghost qv = query_pairs(q@);
            assert(crate::tracer::generators::arazzo_generator::pairs_view(pairs@) == qv);
            assert(qv.len() == pairs@.len());
            let mut k: usize = 0;
            while k < pairs.len()
                invariant
                    k <= pairs@.len(),
                    qv == crate::tracer::generators::arazzo_generator::pairs_view(pairs@),
                    qv.len() == pairs@.len(),
                    param_infos_view(e.parameters@) == add_query_params(e0.3, qv, k as int),
                    e.key@ == e0.0,
                    e.method@ == e0.1,
                    e.route@ == e0.2,
                    jviews(e.request_bodies@) == e0.4,
                    responses_view(e.responses@) == e0.5,
                decreases pairs.len() - k,
            {
                assert(qv[k as int] == (pairs@[k as int].0@, pairs@[k as int].1@));
                if !has_param(&e.parameters, pairs[k].0.as_str()) {
                    let info = ParameterInfo {
                        name: pairs[k].0.clone(),
                        location: String::from_str("query"),
                        param_type: ParameterType::String,
                        required: false,
                        examples: vec![pairs[k].1.clone()],
                    };
                    assert(views_of(info.examples@) =~= seq![qv[k as int].1]);
                    let ghost before = e.parameters@;
                    e.parameters.push(info);
                    assert(param_infos_view(e.parameters@) =~= param_infos_view(before).push(param_info_view(info)));
                }
                k = k + 1;
            }
        },
        None => {},
    }
    match &span.request_body {
        Some(b) => match &b.data {
            BodyData::Json(j) => {
                let ghost before = e.request_bodies@;
                let x = j.copy();
                e.request_bodies.push(x);
                assert(jviews(e.request_bodies@) =~= jviews(before).push(x@));
            },
            _ => {},
        },
        None => {},
    }
    match &span.response_body {
        Some(b) => match &b.data {
            BodyData::Json(j) => {
                add_response_body(&mut e.responses, span.status_code, j.copy());
            },
            _ => {},
        },
        None => {},
    }
}

/// The position of the endpoint with a route key.
fn find_endpoint(es: &Vec<EndpointData>, key: &str) -> (r: Option<usize>)
    ensures
        match r {
            Some(i) => i < es@.len() && endpoint_index(endpoint_views(es@), key@, 0) == Some(i as int),
            None => endpoint_index(endpoint_views(es@), key@, 0) is None,
        },
{
    let ghost ev = endpoint_views(es@);
    let mut k: usize = 0;
    while k < es.len()
        invariant
            k <= es@.len(),
            ev == endpoint_views(es@),
            ev.len() == es@.len(),
            endpoint_index(ev, key@, 0) == endpoint_index(ev, key@, k as int),
        decreases es.len() - k,
    {
        assert(ev[k as int].0 == es@[k as int].key@);
        if str_eq(es[k].key.as_str(), key) {
            return Some(k);
        }
        k = k + 1;
    }
    None
}

impl OpenApiGenerator {
    /// The endpoints of the spans at `idx`, in order of first appearance.
    fn group_by_endpoint(spans: &[HttpSpan], idx: &Vec<usize>, results: &Vec<PathAnalysisResult>) -> (r: Vec<EndpointData>)
        requires
            valid_order(idx@, spans@.len()),
        ensures
            endpoint_views(r@) == endpoints_of(results_view(results@), spans@, idx@, idx@.len() as int),
    {
        let ghost rv = results_view(results@);
        let mut es: Vec<EndpointData> = Vec::new();
        assert(endpoint_views(es@) =~= Seq::<EndpointView>::empty());
        let mut k: usize = 0;
        while k < idx.len()
            invariant
                k <= idx@.len(),
                valid_order(idx@, spans@.len()),
                rv == results_view(results@),
                endpoint_views(es@) == endpoints_of(rv, spans@, idx@, k as int),
            decreases idx.len() - k,
        {
            assert(idx@[k as int] < spans@.len());
            let span = &spans[idx[k]];
            let key = route_key_of(results, span);
            let ghost ev = endpoint_views(es@);
            match find_endpoint(&es, key.as_str()) {
                Some(i) => {
                    let mut e = es.remove(i);
                    assert(endpoint_view(e) == ev[i as int]);
                    record_request(&mut e, span);
                    let ghost ne = endpoint_view(e);
                    es.insert(i, e);
                    assert(endpoint_views(es@) =~= ev.update(i as int, ne));
                },
                None => {
                    let mut e = new_endpoint_data(results, span);
                    record_request(&mut e, span);
                    let ghost ne = endpoint_view(e);
                    es.push(e);
                    assert(endpoint_views(es@) =~= ev.push(ne));
                },
            }
            k = k + 1;
        }
        es
    }

    /// The route analysis of the spans at `idx`.
    fn route_analysis(&self, spans: &[HttpSpan], idx: &Vec<usize>, config: &GeneratorConfig) -> (r: Vec<PathAnalysisResult>)
        requires
            valid_order(idx@, spans@.len()),
        ensures
            results_view(r@) == route_results(*self, spans@, idx@, *config),
    {
        let ghost want = idx@.map_values(|j: usize| (spans@[j as int].method@, spans@[j as int].path@));
        let mut pairs: Vec<(String, String)> = Vec::new();
        let mut k: usize = 0;
        while k < idx.len()
            invariant
                k <= idx@.len(),
                valid_order(idx@, spans@.len()),
                want == idx@.map_values(|j: usize| (spans@[j as int].method@, spans@[j as int].path@)),
                pair_views(pairs@) == want.subrange(0, k as int),
            decreases idx.len() - k,
        {
            assert(idx@[k as int] < spans@.len());
            let span = &spans[idx[k]];
            let ghost before = pairs@;
            let pair = (span.method.clone(), span.path.clone());
            pairs.push(pair);
            assert(pair_views(pairs@) =~= pair_views(before).push((pair.0@, pair.1@)));
            assert(pair_views(pairs@) =~= want.subrange(0, k + 1));
            k = k + 1;
        }
        assert(want.subrange(0, k as int) =~= want);
        if config.infer_params {
            self.path_analyzer.analyze(pairs.as_slice())
        } else {
            let ghost out = want.map_values(|p: (Seq<char>, Seq<char>)| (p.0 + " "@ + p.1, Seq::<ParamView>::empty(), 1nat));
            let mut r: Vec<PathAnalysisResult> = Vec::new();
            let mut k: usize = 0;
            while k < pairs.len()
                invariant
                    k <= pairs@.len(),
                    pair_views(pairs@) == want,
                    out == want.map_values(|p: (Seq<char>, Seq<char>)| (p.0 + " "@ + p.1, Seq::<ParamView>::empty(), 1nat)),
                    results_view(r@) == out.subrange(0, k as int),
                decreases pairs.len() - k,
            {
                assert(want[k as int] == (pairs@[k as int].0@, pairs@[k as int].1@));
                let res = PathAnalysisResult {
                    route: method_and_path(pairs[k].0.as_str(), pairs[k].1.as_str()),
                    parameters: Vec::new(),
                    occurrence_count: 1,
                };
                assert(param_views(res.parameters@) =~= Seq::<ParamView>::empty());
                let ghost before = r@;
                r.push(res);
                assert(results_view(r@) =~= results_view(before).push(result_view(res)));
                assert(results_view(r@) =~= out.subrange(0, k + 1));
                k = k + 1;
            }
            assert(out.subrange(0, k as int) =~= out);
            r
        }
    }

    /// The OpenAPI document generated from the spans that pass the
    /// direction filter: requests grouped by inferred route, with query
    /// parameters and schemas of the JSON bodies seen.
    pub fn generate(&self, spans: &[HttpSpan], config: &GeneratorConfig) -> (r: JsonValue)
        ensures
            r@ == generated_document(*self, spans@, *config),
    {
        let idx = crate::tracer::generators::arazzo_generator::filter_spans(spans, &config.direction_filter);
        self.generate_at(spans, &idx, config)
    }

    /// The OpenAPI document of the spans at `idx`.
    pub(crate) fn generate_at(&self, spans: &[HttpSpan], idx: &Vec<usize>, config: &GeneratorConfig) -> (r: JsonValue)
        requires
            valid_order(idx@, spans@.len()),
        ensures
            r@ == document_for(*self, spans@, idx@, *config),
    {
        let results = self.route_analysis(spans, idx, config);
        let es = Self::group_by_endpoint(spans, idx, &results);
        self.build_openapi_spec(&es, config)
    }

    /// A generator titled `Generated API`, version `1.0.0`, with no base URL.
    pub fn new() -> (g: Self)
        ensures
            g.title@ == "Generated API"@,
            g.version@ == "1.0.0"@,
            g.base_url is None,
            g.schema_inferrer.max_examples == 3,
            g.path_analyzer.min_unique_values == 2,
            g.path_analyzer.max_unique_percent == 80,
    {
        OpenApiGenerator {
            path_analyzer: PathAnalyzer::new(),
            schema_inferrer: SchemaInferrer::new(),
            title: String::from_str("Generated API"),
            version: String::from_str("1.0.0"),
            base_url: None,
        }
    }

    /// The generator with another title.
    pub fn with_title(self, title: String) -> (g: Self)
        ensures
            g.title@ == title@,
            g.version == self.version,
            g.base_url == self.base_url,
            g.path_analyzer == self.path_analyzer,
            g.schema_inferrer == self.schema_inferrer,
    {
        OpenApiGenerator { title, ..self }
    }

    /// The generator with another version.
    pub fn with_version(self, version: String) -> (g: Self)
        ensures
            g.version@ == version@,
            g.title == self.title,
            g.base_url == self.base_url,
            g.path_analyzer == self.path_analyzer,
            g.schema_inferrer == self.schema_inferrer,
    {
        OpenApiGenerator { version, ..self }
    }

    /// The generator with a base URL.
    pub fn with_base_url(self, url: String) -> (g: Self)
        ensures
            g.base_url == Some(url),
            g.title == self.title,
            g.version == self.version,
            g.path_analyzer == self.path_analyzer,
            g.schema_inferrer == self.schema_inferrer,
    {
        OpenApiGenerator { base_url: Some(url), ..self }
    }
}

impl Default for OpenApiGenerator {
    fn default() -> (g: Self)
        ensures
            g.title@ == "Generated API"@,
            g.version@ == "1.0.0"@,
            g.base_url is None,
            g.schema_inferrer.max_examples == 3,
    {
        Self::new()
    }
}

} // verus!
