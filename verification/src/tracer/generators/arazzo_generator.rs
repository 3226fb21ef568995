//! Generation of Arazzo workflows from observed HTTP traffic.

use vstd::prelude::*;
use crate::json::{Json, JsonNumber, JsonValue, view_members, lemma_view_members_index, lemma_view_members_len};
use crate::models::arazzo::{ArazzoSpec, Info, Parameter, RequestBody, SourceDescription, Step, SuccessCriteria, Workflow};
use crate::text::{chars_of, decimal, decimal_u128, decimal_u64, lemma_decimal_injective, lemma_decimal_len, str_eq, views_of, find_char_from, index_of_from, lemma_index_of_from, lowercase, opt_view, replace_char, replace_char_spec, slice_from, slice_range, split_char, split_chars, string_of, to_lowercase, trim_start_char, trim_start_char_spec};
use crate::tracer::inference::openapi_generator::{generated_document, GeneratorConfig, OpenApiGenerator};
use crate::tracer::types::{BodyData, HttpSpan, SpanDirection};

verus! {

/// Generates Arazzo workflows from HTTP spans.
pub struct ArazzoGenerator {
    /// Workflow name.
    pub workflow_name: String,
    /// Workflow description.
    pub workflow_description: Option<String>,
    /// Source description name for the OpenAPI reference.
    pub source_name: String,
}

/// Configuration of Arazzo generation.
pub struct ArazzoGeneratorConfig {
    /// Include success criteria based on observed status codes.
    pub include_success_criteria: bool,
    /// Include request body examples.
    pub include_request_bodies: bool,
    /// Include output mappings for response data.
    pub include_outputs: bool,
    /// Group traces by trace ID into separate workflows.
    pub group_by_trace: bool,
    /// Only spans of this direction, when given.
    pub direction_filter: Option<SpanDirection>,
}

impl Default for ArazzoGeneratorConfig {
    fn default() -> (c: Self)
        ensures
            c.include_success_criteria,
            c.include_request_bodies,
            c.include_outputs,
            !c.group_by_trace,
            c.direction_filter is None,
    {
        ArazzoGeneratorConfig {
            include_success_criteria: true,
            include_request_bodies: true,
            include_outputs: true,
            group_by_trace: false,
            direction_filter: None,
        }
    }
}

/// Name–value pairs of strings, as views.
pub open spec fn pairs_view(v: Seq<(String, String)>) -> Seq<(Seq<char>, Seq<char>)> {
    v.map_values(|e: (String, String)| (e.0@, e.1@))
}

/// A query piece split at its first `=`: the name, and the value (empty
/// when there is no `=`).
pub open spec fn query_pair(piece: Seq<char>) -> (Seq<char>, Seq<char>) {
    match index_of_from(piece, '=', 0) {
        Some(i) => (piece.subrange(0, i), piece.subrange(i + 1, piece.len() as int)),
        None => (piece, Seq::empty()),
    }
}

/// The name–value pairs of a query string, one per `&`-separated piece.
pub open spec fn query_pairs(q: Seq<char>) -> Seq<(Seq<char>, Seq<char>)> {
    split_char(q, '&').map_values(|p: Seq<char>| query_pair(p))
}

/// The base step identifier of a request: the lower-cased method, a dash,
/// and the lower-cased path without its leading slashes, with `/` turned
/// into `-` and braces dropped.
pub open spec fn step_id_base(method: Seq<char>, path: Seq<char>) -> Seq<char> {
    let clean = replace_char_spec(
        replace_char_spec(replace_char_spec(trim_start_char_spec(path, '/'), '/', "-"@), '{', Seq::empty()),
        '}',
        Seq::empty(),
    );
    lowercase(method) + "-"@ + lowercase(clean)
}

impl ArazzoGenerator {
    /// A generator of the workflow `generated-workflow` against the source
    /// `api`.
    pub fn new() -> (g: Self)
        ensures
            g.workflow_name@ == "generated-workflow"@,
            g.workflow_description is None,
            g.source_name@ == "api"@,
    {
        ArazzoGenerator {
            workflow_name: String::from_str("generated-workflow"),
            workflow_description: None,
            source_name: String::from_str("api"),
        }
    }

    /// The generator with this workflow name.
    pub fn with_workflow_name(self, name: String) -> (g: Self)
        ensures
            g.workflow_name@ == name@,
            opt_view(g.workflow_description) == opt_view(self.workflow_description),
            g.source_name@ == self.source_name@,
    {
        ArazzoGenerator { workflow_name: name, ..self }
    }

    /// The generator with this workflow description.
    pub fn with_description(self, desc: String) -> (g: Self)
        ensures
            g.workflow_name@ == self.workflow_name@,
            opt_view(g.workflow_description) == Some(desc@),
            g.source_name@ == self.source_name@,
    {
        ArazzoGenerator { workflow_description: Some(desc), ..self }
    }

    /// The generator with this source description name.
    pub fn with_source_name(self, name: String) -> (g: Self)
        ensures
            g.workflow_name@ == self.workflow_name@,
            opt_view(g.workflow_description) == opt_view(self.workflow_description),
            g.source_name@ == name@,
    {
        ArazzoGenerator { source_name: name, ..self }
    }

    /// The base step identifier of a request (e.g. `GET /users/{id}` gives
    /// `get-users-id`).
    pub fn generate_step_id(method: &str, path: &str) -> (s: String)
        ensures
            s@ == step_id_base(method@, path@),
    {
        let p = chars_of(path);
        let t = trim_start_char(p.as_slice(), '/');
        let dash = chars_of("-");
        let none: Vec<char> = Vec::new();
        let a = replace_char(t.as_slice(), '/', dash.as_slice());
        let b = replace_char(a.as_slice(), '{', none.as_slice());
        let c = replace_char(b.as_slice(), '}', none.as_slice());
        let mut s = to_lowercase(method);
        s.append("-");
        s.append(to_lowercase(string_of(c.as_slice()).as_str()).as_str());
        s
    }

    /// The name–value pairs of a query string.
    pub fn parse_query(query: &str) -> (r: Vec<(String, String)>)
        ensures
            pairs_view(r@) == query_pairs(query@),
    {
        let q = chars_of(query);
        let pieces = split_chars(q.as_slice(), '&');
        let ghost pv = pieces@.map_values(|v: Vec<char>| v@);
        let mut r: Vec<(String, String)> = Vec::new();
        let mut i: usize = 0;
        while i < pieces.len()
            invariant
                i <= pieces@.len(),
                pv == pieces@.map_values(|v: Vec<char>| v@),
                pv == split_char(q@, '&'),
                pairs_view(r@) == pv.map_values(|p: Seq<char>| query_pair(p)).subrange(0, i as int),
            decreases pieces.len() - i,
        {
            let piece = &pieces[i];
            let pair = match find_char_from(piece.as_slice(), '=', 0) {
                Some(k) => {
                    proof { lemma_index_of_from(piece@, '=', 0); }
                    (string_of(slice_range(piece.as_slice(), 0, k).as_slice()), string_of(slice_from(piece.as_slice(), k + 1).as_slice()))
                },
                None => (string_of(piece.as_slice()), String::new()),
            };
            let ghost before = r@;
            r.push(pair);
            assert(pairs_view(r@) =~= pairs_view(before).push((pair.0@, pair.1@)));
            assert(pv[i as int] == piece@);
            assert(pairs_view(r@) =~= pv.map_values(|p: Seq<char>| query_pair(p)).subrange(0, i + 1));
            i = i + 1;
        }
        assert(pv.map_values(|p: Seq<char>| query_pair(p)).subrange(0, i as int) =~= pv.map_values(|p: Seq<char>| query_pair(p)));
        r
    }
}

impl Default for ArazzoGenerator {
    fn default() -> (g: Self)
        ensures
            g.workflow_name@ == "generated-workflow"@,
            g.workflow_description is None,
            g.source_name@ == "api"@,
    {
        Self::new()
    }
}


// ---------------------------------------------------------------- steps

/// The step identifier bases of the spans in `order`.
pub open spec fn order_bases(spans: Seq<HttpSpan>, order: Seq<usize>) -> Seq<Seq<char>> {
    Seq::new(order.len(), |j: int| step_id_base(spans[order[j] as int].method@, spans[order[j] as int].path@))
}

/// How many of the first `n` bases equal `b`.
pub open spec fn base_count(bases: Seq<Seq<char>>, b: Seq<char>, n: int) -> nat
    decreases n,
{
    if n <= 0 || n > bases.len() {
        0
    } else {
        base_count(bases, b, n - 1) + if bases[n - 1] == b { 1nat } else { 0nat }
    }
}

/// The identifier `base` numbered `n`: the base itself for the first, and
/// `<base>-<n>` after it.
pub open spec fn numbered_id(base: Seq<char>, n: nat) -> Seq<char> {
    if n <= 1 {
        base
    } else {
        base + "-"@ + decimal(n)
    }
}

/// The first number from `n` on, of the `k` tried, whose numbered
/// identifier is not among `taken`.
pub open spec fn first_free(taken: Seq<Seq<char>>, base: Seq<char>, n: nat, k: nat) -> nat
    decreases k,
{
    if k == 0 || !taken.contains(numbered_id(base, n)) {
        n
    } else {
        first_free(taken, base, n + 1, (k - 1) as nat)
    }
}

/// The identifiers of the first `j` steps: each step's base numbered by
/// how often that base has come so far, counting on past any identifier
/// an earlier step already has.
pub open spec fn step_ids(bases: Seq<Seq<char>>, j: int) -> Seq<Seq<char>>
    decreases j,
{
    if j <= 0 || j > bases.len() {
        Seq::empty()
    } else {
        let taken = step_ids(bases, j - 1);
        taken.push(
            numbered_id(
                bases[j - 1],
                first_free(taken, bases[j - 1], base_count(bases, bases[j - 1], j), (taken.len() + 1) as nat),
            ),
        )
    }
}

/// Different numbers give different identifiers.
proof fn lemma_numbered_id_injective(b: Seq<char>, n1: nat, n2: nat)
    requires
        n1 >= 1,
        n2 >= 1,
        numbered_id(b, n1) == numbered_id(b, n2),
    ensures
        n1 == n2,
{
    reveal_strlit("-");
    lemma_decimal_len(n1);
    lemma_decimal_len(n2);
    if n1 > 1 && n2 > 1 {
        let s1 = numbered_id(b, n1);
        let s2 = numbered_id(b, n2);
        assert(s1.subrange(b.len() + 1int, s1.len() as int) =~= decimal(n1));
        assert(s2.subrange(b.len() + 1int, s2.len() as int) =~= decimal(n2));
        lemma_decimal_injective(n1, n2);
    } else if n1 > 1 || n2 > 1 {
        assert(numbered_id(b, n1).len() != numbered_id(b, n2).len());
    }
}

/// Of more numbers than identifiers taken, from `n` on, one gives an
/// identifier not taken.
proof fn lemma_some_free(taken: Seq<Seq<char>>, b: Seq<char>, n: nat, k: nat)
    requires
        n >= 1,
        k > taken.len(),
    ensures
        exists|m: nat| n <= m < n + k && !taken.contains(#[trigger] numbered_id(b, m)),
    decreases taken.len(),
{
    if !taken.contains(numbered_id(b, n)) {
        assert(n <= n < n + k);
    } else {
        let i = taken.index_of(numbered_id(b, n));
        let t2 = taken.remove(i);
        lemma_some_free(t2, b, n + 1, (k - 1) as nat);
        let m = choose|m: nat| n + 1 <= m < n + 1 + (k - 1) && !t2.contains(#[trigger] numbered_id(b, m));
        assert(!taken.contains(numbered_id(b, m))) by {
            if taken.contains(numbered_id(b, m)) {
                let x = taken.index_of(numbered_id(b, m));
                if x == i {
                    lemma_numbered_id_injective(b, n, m);
                } else if x < i {
                    assert(t2[x] == taken[x]);
                } else {
                    assert(t2[x - 1] == taken[x]);
                }
            }
        }
    }
}

/// Where some number of the `k` tried is free, the first one tried that
/// is free is what `first_free` gives.
proof fn lemma_first_free(taken: Seq<Seq<char>>, b: Seq<char>, n: nat, k: nat)
    requires
        exists|m: nat| n <= m < n + k && !taken.contains(#[trigger] numbered_id(b, m)),
    ensures
        !taken.contains(numbered_id(b, first_free(taken, b, n, k))),
        n <= first_free(taken, b, n, k) < n + k,
    decreases k,
{
    let m = choose|m: nat| n <= m < n + k && !taken.contains(#[trigger] numbered_id(b, m));
    if taken.contains(numbered_id(b, n)) {
        assert(m != n);
        assert(n + 1 <= m < (n + 1) + (k - 1) && !taken.contains(numbered_id(b, m)));
        lemma_first_free(taken, b, n + 1, (k - 1) as nat);
    }
}

/// A base counted up to and including its own position is counted once
/// at least.
proof fn lemma_base_count_own(bases: Seq<Seq<char>>, j: int)
    requires
        0 < j <= bases.len(),
    ensures
        base_count(bases, bases[j - 1], j) >= 1,
{
}

/// The identifiers of the first `j` steps are `j`, all different.
pub proof fn lemma_step_ids(bases: Seq<Seq<char>>, j: int)
    requires
        0 <= j <= bases.len(),
    ensures
        step_ids(bases, j).len() == j,
        forall|a: int, c: int| 0 <= a < c < j ==> step_ids(bases, j)[a] != step_ids(bases, j)[c],
    decreases j,
{
    if j > 0 {
        lemma_step_ids(bases, j - 1);
        let taken = step_ids(bases, j - 1);
        let b = bases[j - 1];
        let cnt = base_count(bases, b, j);
        lemma_base_count_own(bases, j);
        lemma_some_free(taken, b, cnt, (taken.len() + 1) as nat);
        lemma_first_free(taken, b, cnt, (taken.len() + 1) as nat);
        let id = numbered_id(b, first_free(taken, b, cnt, (taken.len() + 1) as nat));
        let ids = step_ids(bases, j);
        assert(ids == taken.push(id));
        assert forall|a: int, c: int| 0 <= a < c < j implies ids[a] != ids[c] by {
            if c == j - 1 {
                assert(ids[a] == taken[a]);
                assert(taken.contains(taken[a]));
            }
        }
    }
}

/// The operation path of a span's request: `<source>#/<method>/<path>`,
/// the method lower-cased and the path without its leading slashes.
pub open spec fn operation_path_of(source: Seq<char>, span: HttpSpan) -> Seq<char> {
    source + "#/"@ + lowercase(span.method@) + "/"@ + trim_start_char_spec(span.path@, '/')
}

/// The outputs of a span's step: the first five members of its JSON
/// response object, each read from the response body.
pub open spec fn output_members(span: HttpSpan) -> Seq<(Seq<char>, Json)> {
    match span.response_body {
        Some(b) => match b.data {
            BodyData::Json(j) => match j@ {
                Json::Object(ms) => {
                    let n = if ms.len() < 5 { ms.len() as int } else { 5int };
                    ms.subrange(0, n).map_values(|m: (Seq<char>, Json)| (m.0, Json::Str("$response.body."@ + m.0)))
                },
                _ => Seq::empty(),
            },
            _ => Seq::empty(),
        },
        None => Seq::empty(),
    }
}

/// Parameters as name, location and value.
pub open spec fn params_view(ps: Seq<Parameter>) -> Seq<(Seq<char>, Seq<char>, Json)> {
    ps.map_values(|p: Parameter| (p.name@, p.location@, p.value@))
}

/// The query parameters of a span's request.
pub open spec fn query_params(span: HttpSpan) -> Seq<(Seq<char>, Seq<char>, Json)> {
    match span.query {
        Some(q) => query_pairs(q@).map_values(|p: (Seq<char>, Seq<char>)| (p.0, "query"@, Json::Str(p.1))),
        None => Seq::empty(),
    }
}

/// The criterion that a response's status code equals `code`.
pub open spec fn status_criterion(c: SuccessCriteria, code: u16) -> bool {
    &&& c.context@ == "$statusCode"@
    &&& c.condition@ == "$eq"@
    &&& match c.value {
        Some(v) => v@ == Json::Number(true, decimal(code as nat)),
        None => false,
    }
    &&& opt_view(c.criteria_type) == Some("simple"@)
}

/// `step` is the step generated for `span` under the identifier `id`.
pub open spec fn step_for_span(step: Step, span: HttpSpan, id: Seq<char>, source: Seq<char>, config: ArazzoGeneratorConfig) -> bool {
    &&& step.step_id@ == id
    &&& opt_view(step.description) == Some(span.method@ + " "@ + span.path@)
    &&& step.operation_id is None
    &&& opt_view(step.operation_path) == Some(operation_path_of(source, span))
    &&& step.workflow_id is None
    &&& params_view(step.parameters@) == query_params(span)
    &&& match (config.include_request_bodies, span.request_body) {
        (true, Some(b)) => match b.data {
            BodyData::Json(j) => match step.request_body {
                Some(rb) => opt_view(rb.content_type) == opt_view(b.content_type) && rb.payload@ == j@,
                None => false,
            },
            _ => step.request_body is None,
        },
        _ => step.request_body is None,
    }
    &&& if config.include_success_criteria {
        match step.success_criteria {
            Some(c) => c@.len() == 1 && status_criterion(c@[0], span.status_code),
            None => false,
        }
    } else {
        step.success_criteria is None
    }
    &&& step.on_success is None
    &&& step.on_failure is None
    &&& if config.include_outputs && output_members(span).len() > 0 {
        match step.outputs {
            Some(o) => o@ == Json::Object(output_members(span)),
            None => false,
        }
    } else {
        step.outputs is None
    }
}

/// The steps generated for the spans in `order`, one per span, no two with
/// the same identifier.
pub open spec fn steps_for(steps: Seq<Step>, spans: Seq<HttpSpan>, order: Seq<usize>, source: Seq<char>, config: ArazzoGeneratorConfig) -> bool {
    &&& steps.len() == order.len()
    &&& forall|a: int, c: int| 0 <= a < c < steps.len() ==> steps[a].step_id@ != steps[c].step_id@
    &&& forall|j: int| 0 <= j < order.len() ==> step_for_span(
        #[trigger] steps[j],
        spans[order[j] as int],
        step_ids(order_bases(spans, order), order.len() as int)[j],
        source,
        config,
    )
}

/// Every position in `order` names a span.
pub open spec fn valid_order(order: Seq<usize>, n: nat) -> bool {
    forall|j: int| 0 <= j < order.len() ==> #[trigger] order[j] < n
}

/// A count of equal bases never exceeds the number counted.
proof fn lemma_base_count_bound(bases: Seq<Seq<char>>, b: Seq<char>, n: int)
    requires
        0 <= n <= bases.len(),
    ensures
        base_count(bases, b, n) <= n,
    decreases n,
{
    if n > 0 {
        lemma_base_count_bound(bases, b, n - 1);
    }
}

impl ArazzoGenerator {
    /// The request body of a span's step, when bodies are included and the
    /// span's request body is JSON.
    fn step_request_body(span: &HttpSpan, config: &ArazzoGeneratorConfig) -> (r: Option<RequestBody>)
        ensures
            match (config.include_request_bodies, span.request_body) {
                (true, Some(b)) => match b.data {
                    BodyData::Json(j) => match r {
                        Some(rb) => opt_view(rb.content_type) == opt_view(b.content_type) && rb.payload@ == j@,
                        None => false,
                    },
                    _ => r is None,
                },
                _ => r is None,
            },
    {
        if !config.include_request_bodies {
            return None;
        }
        match &span.request_body {
            Some(body) => match &body.data {
                BodyData::Json(json) => Some(RequestBody { content_type: body.content_type.clone(), payload: json.copy() }),
                _ => None,
            },
            None => None,
        }
    }

    /// The outputs of a span's step, as object members.
    fn step_outputs(span: &HttpSpan) -> (r: Vec<(String, JsonValue)>)
        ensures
            view_members(r@) == output_members(*span),
    {
        let mut out: Vec<(String, JsonValue)> = Vec::new();
        match &span.response_body {
            Some(body) => match &body.data {
                BodyData::Json(json) => match json {
                    JsonValue::Object(ms) => {
                        let ghost vm = view_members(ms@);
                        proof { lemma_view_members_len(ms@); }
                        let n: usize = if ms.len() < 5 { ms.len() } else { 5 };
                        let ghost want = vm.subrange(0, n as int).map_values(
                            |m: (Seq<char>, Json)| (m.0, Json::Str("$response.body."@ + m.0)),
                        );
                        let mut k: usize = 0;
                        while k < n
                            invariant
                                k <= n <= ms@.len(),
                                vm == view_members(ms@),
                                vm.len() == ms@.len(),
                                want == vm.subrange(0, n as int).map_values(
                                    |m: (Seq<char>, Json)| (m.0, Json::Str("$response.body."@ + m.0)),
                                ),
                                view_members(out@) == want.subrange(0, k as int),
                            decreases n - k,
                        {
                            proof { lemma_view_members_index(ms@, k as int); }
                            let mut v = String::from_str("$response.body.");
                            v.append(ms[k].0.as_str());
                            let item = (ms[k].0.clone(), JsonValue::String(v));
                            let ghost before = out@;
                            out.push(item);
                            assert(out@.drop_last() =~= before);
                            assert(view_members(out@) == view_members(before).push((item.0@, item.1@)));
                            assert(want[k as int] == (item.0@, item.1@));
                            assert(view_members(out@) =~= want.subrange(0, k + 1));
                            k = k + 1;
                        }
                        assert(want.subrange(0, k as int) =~= want);
                    },
                    _ => {},
                },
                _ => {},
            },
            None => {},
        }
        out
    }

    /// The query parameters of a span's step.
    fn step_parameters(span: &HttpSpan) -> (r: Vec<Parameter>)
        ensures
            params_view(r@) == query_params(*span),
    {
        let mut out: Vec<Parameter> = Vec::new();
        match &span.query {
            Some(q) => {
                let pairs = Self::parse_query(q.as_str());
                let ghost want = query_pairs(q@).map_values(
                    |p: (Seq<char>, Seq<char>)| (p.0, "query"@, Json::Str(p.1)),
                );
                let mut k: usize = 0;
                while k < pairs.len()
                    invariant
                        k <= pairs@.len(),
                        pairs_view(pairs@) == query_pairs(q@),
                        want == query_pairs(q@).map_values(
                            |p: (Seq<char>, Seq<char>)| (p.0, "query"@, Json::Str(p.1)),
                        ),
                        params_view(out@) == want.subrange(0, k as int),
                    decreases pairs.len() - k,
                {
                    let p = Parameter {
                        name: pairs[k].0.clone(),
                        location: String::from_str("query"),
                        value: JsonValue::String(pairs[k].1.clone()),
                    };
                    let ghost before = out@;
                    out.push(p);
                    assert(params_view(out@) =~= params_view(before).push((p.name@, p.location@, p.value@)));
                    assert(params_view(out@) =~= want.subrange(0, k + 1));
                    k = k + 1;
                }
                assert(want.subrange(0, k as int) =~= want);
            },
            None => {},
        }
        out
    }

    /// The step generated for a span under the identifier `id`.
    fn step_for(&self, span: &HttpSpan, id: String, config: &ArazzoGeneratorConfig) -> (step: Step)
        ensures
            step_for_span(step, *span, id@, self.source_name@, *config),
    {
        let mut op_path = self.source_name.clone();
        op_path.append("#/");
        op_path.append(to_lowercase(span.method.as_str()).as_str());
        op_path.append("/");
        let pc = chars_of(span.path.as_str());
        op_path.append(string_of(trim_start_char(pc.as_slice(), '/').as_slice()).as_str());
        let mut desc = span.method.clone();
        desc.append(" ");
        desc.append(span.path.as_str());
        let success_criteria = if config.include_success_criteria {
            let crit = SuccessCriteria {
                context: String::from_str("$statusCode"),
                condition: String::from_str("$eq"),
                value: Some(JsonValue::Number(JsonNumber::UInt(span.status_code as u64))),
                criteria_type: Some(String::from_str("simple")),
            };
            Some(vec![crit])
        } else {
            None
        };
        let outs = Self::step_outputs(span);
        proof { lemma_view_members_len(outs@); }
        let outputs = if config.include_outputs && outs.len() > 0 {
            Some(JsonValue::Object(outs))
        } else {
            None
        };
        Step {
            step_id: id,
            description: Some(desc),
            operation_id: None,
            operation_path: Some(op_path),
            workflow_id: None,
            parameters: Self::step_parameters(span),
            request_body: Self::step_request_body(span, config),
            success_criteria,
            on_success: None,
            on_failure: None,
            outputs,
        }
    }

    /// One step per span in `order`. A base seen before is numbered by how
    /// often it has come, and a number whose identifier an earlier step
    /// already has is passed over, so no two steps share an identifier.
    fn generate_steps(&self, spans: &[HttpSpan], order: &[usize], config: &ArazzoGeneratorConfig) -> (steps: Vec<Step>)
        requires
            valid_order(order@, spans@.len()),
        ensures
            steps_for(steps@, spans@, order@, self.source_name@, *config),
    {
        let ghost bases = order_bases(spans@, order@);
        let mut steps: Vec<Step> = Vec::new();
        let mut seen: Vec<String> = Vec::new();
        let mut ids: Vec<String> = Vec::new();
        let mut j: usize = 0;
        assert(views_of(ids@) =~= step_ids(bases, 0));
        while j < order.len()
            invariant
                j <= order@.len(),
                valid_order(order@, spans@.len()),
                bases == order_bases(spans@, order@),
                seen@.len() == j,
                forall|i: int| 0 <= i < j ==> #[trigger] seen@[i]@ == bases[i],
                views_of(ids@) == step_ids(bases, j as int),
                steps@.len() == j,
                forall|i: int| 0 <= i < j ==> step_for_span(
                    #[trigger] steps@[i],
                    spans@[order@[i] as int],
                    ids@[i]@,
                    self.source_name@,
                    *config,
                ),
            decreases order.len() - j,
        {
            let span = &spans[order[j]];
            let base = Self::generate_step_id(span.method.as_str(), span.path.as_str());
            assert(base@ == bases[j as int]);
            let mut count: usize = 1;
            let mut i: usize = 0;
            let total = order.len();
            proof { lemma_base_count_bound(bases, bases[j as int], j as int); }
            while i < j
                invariant
                    i <= j,
                    j < bases.len(),
                    j < total,
                    seen@.len() == j,
                    forall|k: int| 0 <= k < j ==> #[trigger] seen@[k]@ == bases[k],
                    base@ == bases[j as int],
                    count == 1 + base_count(bases, bases[j as int], i as int),
                    base_count(bases, bases[j as int], j as int) <= j,
                decreases j - i,
            {
                proof { lemma_base_count_bound(bases, bases[j as int], i as int); }
                if str_eq(seen[i].as_str(), base.as_str()) {
                    count = count + 1;
                }
                i = i + 1;
            }
            assert(count == base_count(bases, bases[j as int], j + 1));
            let ghost taken = step_ids(bases, j as int);
            proof { lemma_step_ids(bases, j as int); }
            let mut n: u128 = count as u128;
            let mut left: usize = j + 1;
            let mut id = numbered(&base, n);
            while left > 0 && contains_string(&ids, id.as_str())
                invariant
                    views_of(ids@) == taken,
                    taken.len() == j,
                    j < total,
                    left <= j + 1,
                    1 <= count <= j + 1,
                    count <= n <= count + (j + 1 - left),
                    id@ == numbered_id(base@, n as nat),
                    first_free(taken, base@, count as nat, (j + 1) as nat) == first_free(taken, base@, n as nat, left as nat),
                decreases left,
            {
                n = n + 1;
                left = left - 1;
                id = numbered(&base, n);
            }
            assert(id@ == numbered_id(bases[j as int], first_free(taken, bases[j as int], base_count(bases, bases[j as int], j + 1), (taken.len() + 1) as nat)));
            let step = self.step_for(span, id.clone(), config);
            let ghost before = ids@;
            ids.push(id);
            assert(views_of(ids@) =~= views_of(before).push(ids@[j as int]@));
            assert(views_of(ids@) =~= step_ids(bases, j + 1));
            steps.push(step);
            seen.push(base);
            j = j + 1;
        }
        proof { lemma_step_ids(bases, order@.len() as int); }
        assert forall|a: int, c: int| 0 <= a < c < steps@.len() implies steps@[a].step_id@ != steps@[c].step_id@ by {
            assert(views_of(ids@)[a] == ids@[a]@);
            assert(views_of(ids@)[c] == ids@[c]@);
        }
        steps
    }
}

/// The identifier `base` numbered `n`.
fn numbered(base: &String, n: u128) -> (r: String)
    ensures
        r@ == numbered_id(base@, n as nat),
{
    if n <= 1 {
        base.clone()
    } else {
        let mut id = base.clone();
        id.append("-");
        id.append(decimal_u128(n).as_str());
        id
    }
}

/// Whether `s` is among `v`.
fn contains_string(v: &Vec<String>, s: &str) -> (r: bool)
    ensures
        r == views_of(v@).contains(s@),
{
    let mut i: usize = 0;
    while i < v.len()
        invariant
            i <= v@.len(),
            forall|k: int| 0 <= k < i ==> v@[k]@ != s@,
        decreases v.len() - i,
    {
        if str_eq(v[i].as_str(), s) {
            assert(views_of(v@)[i as int] == s@);
            return true;
        }
        i = i + 1;
    }
    assert forall|k: int| 0 <= k < views_of(v@).len() implies views_of(v@)[k] != s@ by {
        assert(views_of(v@)[k] == v@[k]@);
    }
    false
}


// ---------------------------------------------------------------- ordering and grouping

/// The positions of the first `n` spans that pass the direction filter.
pub open spec fn filtered(spans: Seq<HttpSpan>, f: Option<SpanDirection>, n: int) -> Seq<usize>
    decreases n,
{
    if n <= 0 || n > spans.len() {
        Seq::empty()
    } else {
        let p = filtered(spans, f, n - 1);
        match f {
            Some(d) => if spans[n - 1].direction == d {
                p.push((n - 1) as usize)
            } else {
                p
            },
            None => p.push((n - 1) as usize),
        }
    }
}

/// `sorted` with `j` inserted after every position whose span starts no
/// later than span `j`.
pub open spec fn insert_by_start(spans: Seq<HttpSpan>, sorted: Seq<usize>, j: usize) -> Seq<usize>
    decreases sorted.len(),
{
    if sorted.len() == 0 {
        seq![j]
    } else if spans[sorted.last() as int].start_time <= spans[j as int].start_time {
        sorted.push(j)
    } else {
        insert_by_start(spans, sorted.drop_last(), j).push(sorted.last())
    }
}

/// The positions ordered by the spans' start times; positions of spans
/// that start together keep their order.
pub open spec fn sort_by_start(spans: Seq<HttpSpan>, idx: Seq<usize>) -> Seq<usize>
    decreases idx.len(),
{
    if idx.len() == 0 {
        Seq::empty()
    } else {
        insert_by_start(spans, sort_by_start(spans, idx.drop_last()), idx.last())
    }
}

/// Inserting keeps every position in range.
proof fn lemma_insert_valid(spans: Seq<HttpSpan>, sorted: Seq<usize>, j: usize)
    requires
        valid_order(sorted, spans.len()),
        j < spans.len(),
    ensures
        valid_order(insert_by_start(spans, sorted, j), spans.len()),
        insert_by_start(spans, sorted, j).len() == sorted.len() + 1,
    decreases sorted.len(),
{
    if sorted.len() > 0 && !(spans[sorted.last() as int].start_time <= spans[j as int].start_time) {
        lemma_insert_valid(spans, sorted.drop_last(), j);
    }
}

/// Sorting keeps every position in range.
proof fn lemma_sort_valid(spans: Seq<HttpSpan>, idx: Seq<usize>)
    requires
        valid_order(idx, spans.len()),
    ensures
        valid_order(sort_by_start(spans, idx), spans.len()),
        sort_by_start(spans, idx).len() == idx.len(),
    decreases idx.len(),
{
    if idx.len() > 0 {
        lemma_sort_valid(spans, idx.drop_last());
        lemma_insert_valid(spans, sort_by_start(spans, idx.drop_last()), idx.last());
    }
}

/// Inserts `j` into `sorted` as `insert_by_start` describes.
fn insert_sorted(spans: &[HttpSpan], sorted: &mut Vec<usize>, j: usize)
    requires
        valid_order(old(sorted)@, spans@.len()),
        j < spans@.len(),
    ensures
        final(sorted)@ == insert_by_start(spans@, old(sorted)@, j),
{
    let ghost s0 = sorted@;
    let mut p = sorted.len();
    assert(s0.subrange(p as int, s0.len() as int) =~= Seq::<usize>::empty());
    assert(s0.subrange(0, p as int) =~= s0);
    while p > 0 && spans[sorted[p - 1]].start_time > spans[j].start_time
        invariant
            p <= sorted@.len(),
            sorted@ == s0,
            valid_order(s0, spans@.len()),
            j < spans@.len(),
            insert_by_start(spans@, s0, j) == insert_by_start(spans@, s0.subrange(0, p as int), j) + s0.subrange(
                p as int,
                s0.len() as int,
            ),
        decreases p,
    {
        let ghost sub = s0.subrange(0, p as int);
        assert(sub.drop_last() =~= s0.subrange(0, p - 1));
        assert(sub.last() == s0[p - 1]);
        assert(s0.subrange(p - 1, s0.len() as int) =~= seq![s0[p - 1]] + s0.subrange(p as int, s0.len() as int));
        p = p - 1;
    }
    proof {
        let sub = s0.subrange(0, p as int);
        if p > 0 {
            assert(sub.last() == s0[p - 1]);
        }
        assert(insert_by_start(spans@, sub, j) =~= sub.push(j));
    }
    sorted.insert(p, j);
    assert(sorted@ =~= s0.subrange(0, p as int).push(j) + s0.subrange(p as int, s0.len() as int));
}

/// Orders positions by the spans' start times, keeping the order of
/// spans that start together.
fn sorted_by_start(spans: &[HttpSpan], idx: &Vec<usize>) -> (r: Vec<usize>)
    requires
        valid_order(idx@, spans@.len()),
    ensures
        r@ == sort_by_start(spans@, idx@),
        valid_order(r@, spans@.len()),
{
    let mut r: Vec<usize> = Vec::new();
    let mut k: usize = 0;
    while k < idx.len()
        invariant
            k <= idx@.len(),
            valid_order(idx@, spans@.len()),
            r@ == sort_by_start(spans@, idx@.subrange(0, k as int)),
            valid_order(r@, spans@.len()),
        decreases idx.len() - k,
    {
        assert(idx@.subrange(0, k + 1).drop_last() =~= idx@.subrange(0, k as int));
        assert(idx[k as int] < spans@.len());
        insert_sorted(spans, &mut r, idx[k]);
        proof {
            lemma_sort_valid(spans@, idx@.subrange(0, k + 1));
        }
        k = k + 1;
    }
    assert(idx@.subrange(0, k as int) =~= idx@);
    r
}

/// The position of the group whose spans have trace `t`.
pub open spec fn group_of(spans: Seq<HttpSpan>, groups: Seq<Seq<usize>>, t: Seq<char>, from: int) -> Option<int>
    decreases groups.len() - from,
{
    if from < 0 || from >= groups.len() {
        None
    } else if groups[from].len() > 0 && spans[groups[from][0] as int].trace_id@ == t {
        Some(from)
    } else {
        group_of(spans, groups, t, from + 1)
    }
}

/// The positions among the first `n` of `idx`, grouped by trace: groups in
/// order of their trace's first span, positions in order within a group.
pub open spec fn trace_groups(spans: Seq<HttpSpan>, idx: Seq<usize>, n: int) -> Seq<Seq<usize>>
    decreases n,
{
    if n <= 0 || n > idx.len() {
        Seq::empty()
    } else {
        let gs = trace_groups(spans, idx, n - 1);
        let j = idx[n - 1];
        match group_of(spans, gs, spans[j as int].trace_id@, 0) {
            Some(g) => gs.update(g, gs[g].push(j)),
            None => gs.push(seq![j]),
        }
    }
}


/// Groups as sequences of positions.
pub open spec fn groups_view(gs: Seq<Vec<usize>>) -> Seq<Seq<usize>> {
    gs.map_values(|g: Vec<usize>| g@)
}

/// Every group is non-empty and names spans.
pub open spec fn valid_groups(gs: Seq<Seq<usize>>, n: nat) -> bool {
    forall|g: int| 0 <= g < gs.len() ==> #[trigger] gs[g].len() > 0 && valid_order(gs[g], n)
}

/// Filtering yields positions of spans.
proof fn lemma_filtered_valid(spans: Seq<HttpSpan>, f: Option<SpanDirection>, n: int)
    requires
        0 <= n <= spans.len(),
    ensures
        valid_order(filtered(spans, f, n), spans.len()),
    decreases n,
{
    if n > 0 {
        lemma_filtered_valid(spans, f, n - 1);
    }
}

/// A group found by `group_of` lies in range.
proof fn lemma_group_of(spans: Seq<HttpSpan>, gs: Seq<Seq<usize>>, t: Seq<char>, from: int)
    requires
        group_of(spans, gs, t, from) is Some,
    ensures
        from <= group_of(spans, gs, t, from).unwrap() < gs.len(),
    decreases gs.len() - from,
{
    if !(from < 0 || from >= gs.len()) && !(gs[from].len() > 0 && spans[gs[from][0] as int].trace_id@ == t) {
        lemma_group_of(spans, gs, t, from + 1);
    }
}

/// Grouping yields non-empty groups of positions of spans.
proof fn lemma_groups_valid(spans: Seq<HttpSpan>, idx: Seq<usize>, n: int)
    requires
        valid_order(idx, spans.len()),
        0 <= n <= idx.len(),
    ensures
        valid_groups(trace_groups(spans, idx, n), spans.len()),
    decreases n,
{
    if n > 0 {
        lemma_groups_valid(spans, idx, n - 1);
        let gs = trace_groups(spans, idx, n - 1);
        let j = idx[n - 1];
        match group_of(spans, gs, spans[j as int].trace_id@, 0) {
            Some(g) => {
                lemma_group_of(spans, gs, spans[j as int].trace_id@, 0);
                assert(valid_groups(gs.update(g, gs[g].push(j)), spans.len()));
            },
            None => {
                assert(valid_groups(gs.push(seq![j]), spans.len()));
            },
        }
    }
}

/// The positions of the spans that pass the direction filter.
pub(crate) fn filter_spans(spans: &[HttpSpan], f: &Option<SpanDirection>) -> (r: Vec<usize>)
    ensures
        r@ == filtered(spans@, *f, spans@.len() as int),
        valid_order(r@, spans@.len()),
{
    let mut r: Vec<usize> = Vec::new();
    let mut k: usize = 0;
    while k < spans.len()
        invariant
            k <= spans@.len(),
            r@ == filtered(spans@, *f, k as int),
        decreases spans.len() - k,
    {
        match f {
            Some(d) => {
                if spans[k].direction == *d {
                    r.push(k);
                }
            },
            None => r.push(k),
        }
        k = k + 1;
    }
    proof { lemma_filtered_valid(spans@, *f, spans@.len() as int); }
    r
}

/// The position of the group whose spans have trace `t`.
fn find_group(spans: &[HttpSpan], groups: &Vec<Vec<usize>>, t: &str) -> (r: Option<usize>)
    requires
        valid_groups(groups_view(groups@), spans@.len()),
    ensures
        match r {
            Some(g) => group_of(spans@, groups_view(groups@), t@, 0) == Some(g as int),
            None => group_of(spans@, groups_view(groups@), t@, 0) is None,
        },
{
    let ghost gv = groups_view(groups@);
    let mut g: usize = 0;
    while g < groups.len()
        invariant
            g <= groups@.len(),
            gv == groups_view(groups@),
            gv.len() == groups@.len(),
            valid_groups(gv, spans@.len()),
            group_of(spans@, gv, t@, 0) == group_of(spans@, gv, t@, g as int),
        decreases groups.len() - g,
    {
        assert(gv[g as int] == groups@[g as int]@);
        assert(gv[g as int].len() > 0);
        let first = groups[g][0];
        if crate::text::str_eq(spans[first].trace_id.as_str(), t) {
            return Some(g);
        }
        g = g + 1;
    }
    None
}

/// The positions grouped by trace, as `trace_groups` describes.
fn group_by_trace(spans: &[HttpSpan], idx: &Vec<usize>) -> (r: Vec<Vec<usize>>)
    requires
        valid_order(idx@, spans@.len()),
    ensures
        groups_view(r@) == trace_groups(spans@, idx@, idx@.len() as int),
        valid_groups(groups_view(r@), spans@.len()),
{
    let mut groups: Vec<Vec<usize>> = Vec::new();
    let mut k: usize = 0;
    assert(groups_view(groups@) =~= Seq::<Seq<usize>>::empty());
    while k < idx.len()
        invariant
            k <= idx@.len(),
            valid_order(idx@, spans@.len()),
            groups_view(groups@) == trace_groups(spans@, idx@, k as int),
            valid_groups(groups_view(groups@), spans@.len()),
        decreases idx.len() - k,
    {
        let j = idx[k];
        let ghost gs = groups_view(groups@);
        match find_group(spans, &groups, spans[j].trace_id.as_str()) {
            Some(g) => {
                proof { lemma_group_of(spans@, gs, spans@[j as int].trace_id@, 0); }
                let mut inner: Vec<usize> = Vec::new();
                groups.set_and_swap(g, &mut inner);
                assert(inner@ == gs[g as int]);
                inner.push(j);
                groups.set_and_swap(g, &mut inner);
                assert(groups_view(groups@) =~= gs.update(g as int, gs[g as int].push(j)));
            },
            None => {
                let mut fresh: Vec<usize> = Vec::new();
                fresh.push(j);
                groups.push(fresh);
                assert(groups_view(groups@) =~= gs.push(seq![j]));
            },
        }
        proof { lemma_groups_valid(spans@, idx@, k + 1); }
        k = k + 1;
    }
    groups
}


// ---------------------------------------------------------------- documents

/// The source description of generated documents: the OpenAPI document
/// `openapi.yaml` under the generator's source name.
pub open spec fn generated_source(sd: SourceDescription, name: Seq<char>) -> bool {
    &&& sd.name@ == name
    &&& sd.url@ == "openapi.yaml"@
    &&& opt_view(sd.source_type) == Some("openapi"@)
}

/// A generated workflow's parts that are always absent.
pub open spec fn bare_workflow(w: Workflow) -> bool {
    &&& w.inputs is None
    &&& w.success_criteria is None
    &&& w.outputs is None
    &&& w.extensions@.len() == 0
}

/// `a` is the document of one workflow over the spans at `idx`, in order
/// of their start times.
pub open spec fn single_document(a: ArazzoSpec, g: ArazzoGenerator, spans: Seq<HttpSpan>, idx: Seq<usize>, config: ArazzoGeneratorConfig) -> bool {
    &&& a.arazzo@ == "1.0.0"@
    &&& a.info.title@ == g.workflow_name@ + " Workflow"@
    &&& a.info.version@ == "1.0.0"@
    &&& opt_view(a.info.summary) == Some("Auto-generated from trace data"@)
    &&& opt_view(a.info.description) == opt_view(g.workflow_description)
    &&& a.source_descriptions@.len() == 1
    &&& generated_source(a.source_descriptions@[0], g.source_name@)
    &&& a.workflows@.len() == 1
    &&& a.workflows@[0].workflow_id@ == g.workflow_name@
    &&& opt_view(a.workflows@[0].summary) == Some("Generated workflow with "@ + decimal(idx.len()) + " steps"@)
    &&& opt_view(a.workflows@[0].description) == opt_view(g.workflow_description)
    &&& bare_workflow(a.workflows@[0])
    &&& steps_for(a.workflows@[0].steps@, spans, sort_by_start(spans, idx), g.source_name@, config)
    &&& a.components is None
}

/// `w` is workflow number `i` (from 0) of a grouped document, over the
/// spans of one trace.
pub open spec fn group_workflow(w: Workflow, g: ArazzoGenerator, spans: Seq<HttpSpan>, group: Seq<usize>, i: int, config: ArazzoGeneratorConfig) -> bool {
    &&& w.workflow_id@ == g.workflow_name@ + "-"@ + decimal((i + 1) as nat)
    &&& opt_view(w.summary) == Some(
        "Trace "@ + spans[group[0] as int].trace_id@ + " with "@ + decimal(group.len()) + " steps"@,
    )
    &&& w.description is None
    &&& bare_workflow(w)
    &&& steps_for(w.steps@, spans, sort_by_start(spans, group), g.source_name@, config)
}

/// `a` is the document of one workflow per trace of the spans at `idx`.
pub open spec fn grouped_document(a: ArazzoSpec, g: ArazzoGenerator, spans: Seq<HttpSpan>, groups: Seq<Seq<usize>>, config: ArazzoGeneratorConfig) -> bool {
    &&& a.arazzo@ == "1.0.0"@
    &&& a.info.title@ == g.workflow_name@ + " Workflows"@
    &&& a.info.version@ == "1.0.0"@
    &&& opt_view(a.info.summary) == Some(
        "Auto-generated "@ + decimal(groups.len()) + " workflows from trace data"@,
    )
    &&& opt_view(a.info.description) == opt_view(g.workflow_description)
    &&& a.source_descriptions@.len() == 1
    &&& generated_source(a.source_descriptions@[0], g.source_name@)
    &&& a.workflows@.len() == groups.len()
    &&& forall|i: int| 0 <= i < groups.len() ==> group_workflow(#[trigger] a.workflows@[i], g, spans, groups[i], i, config)
    &&& a.components is None
}

/// `a` is the document generated from the spans: the spans that pass the
/// direction filter, as one workflow, or one workflow per trace.
pub open spec fn generated(a: ArazzoSpec, g: ArazzoGenerator, spans: Seq<HttpSpan>, config: ArazzoGeneratorConfig) -> bool {
    let idx = filtered(spans, config.direction_filter, spans.len() as int);
    if config.group_by_trace {
        grouped_document(a, g, spans, trace_groups(spans, idx, idx.len() as int), config)
    } else {
        single_document(a, g, spans, idx, config)
    }
}

impl ArazzoGenerator {
    /// The source description of generated documents.
    fn source_description(&self) -> (sd: SourceDescription)
        ensures
            generated_source(sd, self.source_name@),
    {
        SourceDescription {
            name: self.source_name.clone(),
            url: String::from_str("openapi.yaml"),
            source_type: Some(String::from_str("openapi")),
        }
    }

    /// One workflow over all the spans at `idx`.
    fn generate_single(&self, spans: &[HttpSpan], idx: &Vec<usize>, config: &ArazzoGeneratorConfig) -> (a: ArazzoSpec)
        requires
            valid_order(idx@, spans@.len()),
        ensures
            single_document(a, *self, spans@, idx@, *config),
    {
        let order = sorted_by_start(spans, idx);
        proof { lemma_sort_valid(spans@, idx@); }
        let steps = self.generate_steps(spans, order.as_slice(), config);
        let mut summary = String::from_str("Generated workflow with ");
        summary.append(decimal_u64(steps.len() as u64).as_str());
        summary.append(" steps");
        let workflow = Workflow {
            workflow_id: self.workflow_name.clone(),
            summary: Some(summary),
            description: self.workflow_description.clone(),
            inputs: None,
            steps,
            success_criteria: None,
            outputs: None,
            extensions: Vec::new(),
        };
        let mut title = self.workflow_name.clone();
        title.append(" Workflow");
        let a = ArazzoSpec {
            arazzo: String::from_str("1.0.0"),
            info: Info {
                title,
                summary: Some(String::from_str("Auto-generated from trace data")),
                description: self.workflow_description.clone(),
                version: String::from_str("1.0.0"),
            },
            source_descriptions: vec![self.source_description()],
            workflows: vec![workflow],
            components: None,
        };
        a
    }

    /// One workflow per trace of the spans at `idx`.
    fn generate_grouped(&self, spans: &[HttpSpan], idx: &Vec<usize>, config: &ArazzoGeneratorConfig) -> (a: ArazzoSpec)
        requires
            valid_order(idx@, spans@.len()),
        ensures
            grouped_document(a, *self, spans@, trace_groups(spans@, idx@, idx@.len() as int), *config),
    {
        let groups = group_by_trace(spans, idx);
        let ghost gv = groups_view(groups@);
        let mut workflows: Vec<Workflow> = Vec::new();
        let mut i: usize = 0;
        while i < groups.len()
            invariant
                i <= groups@.len(),
                gv == groups_view(groups@),
                gv.len() == groups@.len(),
                valid_groups(gv, spans@.len()),
                workflows@.len() == i,
                forall|k: int| 0 <= k < i ==> group_workflow(#[trigger] workflows@[k], *self, spans@, gv[k], k, *config),
            decreases groups.len() - i,
        {
            assert(gv[i as int] == groups@[i as int]@);
            assert(gv[i as int].len() > 0 && valid_order(gv[i as int], spans@.len()));
            let order = sorted_by_start(spans, &groups[i]);
            proof { lemma_sort_valid(spans@, gv[i as int]); }
            let steps = self.generate_steps(spans, order.as_slice(), config);
            let mut id = self.workflow_name.clone();
            id.append("-");
            id.append(decimal_u64(i as u64 + 1).as_str());
            let mut summary = String::from_str("Trace ");
            summary.append(spans[groups[i][0]].trace_id.as_str());
            summary.append(" with ");
            summary.append(decimal_u64(steps.len() as u64).as_str());
            summary.append(" steps");
            workflows.push(Workflow {
                workflow_id: id,
                summary: Some(summary),
                description: None,
                inputs: None,
                steps,
                success_criteria: None,
                outputs: None,
                extensions: Vec::new(),
            });
            i = i + 1;
        }
        let mut title = self.workflow_name.clone();
        title.append(" Workflows");
        let mut summary = String::from_str("Auto-generated ");
        summary.append(decimal_u64(workflows.len() as u64).as_str());
        summary.append(" workflows from trace data");
        ArazzoSpec {
            arazzo: String::from_str("1.0.0"),
            info: Info {
                title,
                summary: Some(summary),
                description: self.workflow_description.clone(),
                version: String::from_str("1.0.0"),
            },
            source_descriptions: vec![self.source_description()],
            workflows,
            components: None,
        }
    }

    /// The Arazzo document for the spans: those that pass the direction
    /// filter, as one workflow in order of start time, or as one workflow
    /// per trace when grouping by trace.
    pub fn generate(&self, spans: &[HttpSpan], config: &ArazzoGeneratorConfig) -> (a: ArazzoSpec)
        ensures
            generated(a, *self, spans@, *config),
    {
        let idx = filter_spans(spans, &config.direction_filter);
        if config.group_by_trace {
            self.generate_grouped(spans, &idx, config)
        } else {
            self.generate_single(spans, &idx, config)
        }
    }
}


/// The OpenAPI generator paired with an Arazzo document: titled after the
/// workflow, version `1.0.0`, with the default analyzers.
pub open spec fn paired_generator(og: OpenApiGenerator, g: ArazzoGenerator) -> bool {
    &&& og.title@ == g.workflow_name@ + " API"@
    &&& og.version@ == "1.0.0"@
    &&& og.base_url is None
    &&& og.schema_inferrer.max_examples == 3
    &&& og.path_analyzer.min_unique_values == 2
    &&& og.path_analyzer.max_unique_percent == 80
}

/// The configuration of the OpenAPI document paired with an Arazzo document.
pub open spec fn paired_config(config: ArazzoGeneratorConfig) -> GeneratorConfig {
    GeneratorConfig {
        infer_params: true,
        infer_schemas: true,
        include_examples: true,
        direction_filter: config.direction_filter,
    }
}

impl ArazzoGenerator {
    /// The Arazzo document for the spans together with an OpenAPI document
    /// generated from the same spans.
    pub fn generate_with_openapi(&self, spans: &[HttpSpan], config: &ArazzoGeneratorConfig) -> (r: (ArazzoSpec, JsonValue))
        ensures
            generated(r.0, *self, spans@, *config),
            exists|og: OpenApiGenerator| paired_generator(og, *self) && r.1@ == #[trigger] generated_document(og, spans@, paired_config(*config)),
    {
        let arazzo = self.generate(spans, config);
        let mut title = self.workflow_name.clone();
        title.append(" API");
        let og = OpenApiGenerator::new().with_title(title).with_version(String::from_str("1.0.0"));
        let oc = GeneratorConfig {
            infer_params: true,
            infer_schemas: true,
            include_examples: true,
            direction_filter: config.direction_filter,
        };
        let openapi = og.generate(spans, &oc);
        assert(paired_generator(og, *self) && openapi@ == generated_document(og, spans@, paired_config(*config)));
        (arazzo, openapi)
    }
}

} // verus!
