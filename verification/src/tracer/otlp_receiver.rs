//! What the OTLP receiver does with a trace export: the HTTP spans it holds,
//! in order, and the statistics they are counted into.

use vstd::prelude::*;
use crate::tracer::semantic_conventions::attributes::KeyValue;
use crate::tracer::span_classifier::{http_span_for, is_http_span, Span, SpanClassifier};
use crate::tracer::types::{codes_after, codes_room, count_direction, HttpSpan, SpanDirection, TraceStatistics};

verus! {

/// A notice that spans were received for a session.
pub struct SpanNotification {
    pub session_id: String,
    pub span_count: usize,
}

/// The resource that produced spans: its attributes.
pub struct Resource {
    pub attributes: Vec<KeyValue>,
}

/// The spans of one instrumentation scope.
pub struct ScopeSpans {
    pub spans: Vec<Span>,
}

/// The spans of one resource.
pub struct ResourceSpans {
    pub resource: Option<Resource>,
    pub scope_spans: Vec<ScopeSpans>,
}

/// A trace export request.
pub struct ExportTraceServiceRequest {
    pub resource_spans: Vec<ResourceSpans>,
}

/// The attributes of the resource of a group of spans (none without one).
pub open spec fn resource_attributes(rs: ResourceSpans) -> Seq<KeyValue> {
    match rs.resource {
        Some(r) => r.attributes@,
        None => Seq::empty(),
    }
}

/// The spans of the first `n` scopes, each with the resource's attributes.
pub open spec fn scope_items(res: Seq<KeyValue>, scopes: Seq<ScopeSpans>, n: int) -> Seq<(Seq<KeyValue>, Span)>
    decreases n,
{
    if n <= 0 || n > scopes.len() {
        Seq::empty()
    } else {
        scope_items(res, scopes, n - 1) + scopes[n - 1].spans@.map_values(|s: Span| (res, s))
    }
}

/// The spans of the first `n` resources, in order, each with its resource's
/// attributes.
pub open spec fn request_items(rss: Seq<ResourceSpans>, n: int) -> Seq<(Seq<KeyValue>, Span)>
    decreases n,
{
    if n <= 0 || n > rss.len() {
        Seq::empty()
    } else {
        request_items(rss, n - 1) + scope_items(
            resource_attributes(rss[n - 1]),
            rss[n - 1].scope_spans@,
            rss[n - 1].scope_spans@.len() as int,
        )
    }
}

/// The items among the first `n` whose span is an HTTP request.
pub open spec fn http_items(items: Seq<(Seq<KeyValue>, Span)>, n: int) -> Seq<(Seq<KeyValue>, Span)>
    decreases n,
{
    if n <= 0 || n > items.len() {
        Seq::empty()
    } else if is_http_span(items[n - 1].1) {
        http_items(items, n - 1).push(items[n - 1])
    } else {
        http_items(items, n - 1)
    }
}

/// The spans of a request, in order, each with its resource's attributes.
pub open spec fn export_items(request: ExportTraceServiceRequest) -> Seq<(Seq<KeyValue>, Span)> {
    request_items(request.resource_spans@, request.resource_spans@.len() as int)
}

/// The HTTP spans made of the items, in order.
pub open spec fn spans_of_items(c: SpanClassifier, items: Seq<(Seq<KeyValue>, Span)>, hs: Seq<HttpSpan>) -> bool {
    let sel = http_items(items, items.len() as int);
    &&& hs.len() == sel.len()
    &&& forall|k: int| 0 <= k < sel.len() ==> http_span_for(c, sel[k].1, sel[k].0, #[trigger] hs[k])
}

/// Selecting from a longer sequence does not change what was selected
/// from its prefix.
proof fn lemma_http_items_prefix(items: Seq<(Seq<KeyValue>, Span)>, x: (Seq<KeyValue>, Span), n: int)
    requires
        0 <= n <= items.len(),
    ensures
        http_items(items.push(x), n) == http_items(items, n),
    decreases n,
{
    if n > 0 {
        lemma_http_items_prefix(items, x, n - 1);
        assert(items.push(x)[n - 1] == items[n - 1]);
    }
}

/// The HTTP spans of a trace export, in the order of its resources, scopes
/// and spans.
pub fn collect_http_spans(classifier: &SpanClassifier, request: &ExportTraceServiceRequest) -> (r: Vec<HttpSpan>)
    ensures
        spans_of_items(*classifier, export_items(*request), r@),
{
    let ghost mut done: Seq<(Seq<KeyValue>, Span)> = Seq::empty();
    let mut r: Vec<HttpSpan> = Vec::new();
    let mut i: usize = 0;
    while i < request.resource_spans.len()
        invariant
            i <= request.resource_spans@.len(),
            done == request_items(request.resource_spans@, i as int),
            spans_of_items(*classifier, done, r@),
        decreases request.resource_spans.len() - i,
    {
        let rs = &request.resource_spans[i];
        let empty: Vec<KeyValue> = Vec::new();
        let res: &Vec<KeyValue> = match &rs.resource {
            Some(x) => &x.attributes,
            None => &empty,
        };
        assert(res@ == resource_attributes(*rs));
        let ghost base = done;
        let mut j: usize = 0;
        while j < rs.scope_spans.len()
            invariant
                i < request.resource_spans@.len(),
                *rs == request.resource_spans@[i as int],
                res@ == resource_attributes(*rs),
                j <= rs.scope_spans@.len(),
                base == request_items(request.resource_spans@, i as int),
                done == base + scope_items(res@, rs.scope_spans@, j as int),
                spans_of_items(*classifier, done, r@),
            decreases rs.scope_spans.len() - j,
        {
            let spans = &rs.scope_spans[j].spans;
            let ghost before = done;
            let mut k: usize = 0;
            while k < spans.len()
                invariant
                    j < rs.scope_spans@.len(),
                    *spans == rs.scope_spans@[j as int].spans,
                    k <= spans@.len(),
                    i < request.resource_spans@.len(),
                    *rs == request.resource_spans@[i as int],
                    before == base + scope_items(res@, rs.scope_spans@, j as int),
                    done == before + spans@.subrange(0, k as int).map_values(|s: Span| (res@, s)),
                    spans_of_items(*classifier, done, r@),
                decreases spans.len() - k,
            {
                let ghost item = (res@, spans@[k as int]);
                let ghost next = done.push(item);
                assert(next =~= before + spans@.subrange(0, k + 1).map_values(|s: Span| (res@, s)));
                assert(spans@[k as int] == request.resource_spans@[i as int].scope_spans@[j as int].spans@[k as int]);
                proof { lemma_http_items_prefix(done, item, done.len() as int); }
                match classifier.classify(&spans[k], res.as_slice()) {
                    Some(h) => {
                        r.push(h);
                    },
                    None => {},
                }
                proof { done = next; }
                k = k + 1;
            }
            assert(spans@.subrange(0, k as int) =~= spans@);
            assert(done =~= base + scope_items(res@, rs.scope_spans@, j + 1));
            j = j + 1;
        }
        assert(done =~= request_items(request.resource_spans@, i + 1));
        i = i + 1;
    }
    r
}

/// What selecting from the first `n` items keeps is at most `n` items.
proof fn lemma_http_items_len(items: Seq<(Seq<KeyValue>, Span)>, n: int)
    requires
        0 <= n <= items.len(),
    ensures
        http_items(items, n).len() <= n,
    decreases n,
{
    if n > 0 {
        lemma_http_items_len(items, n - 1);
    }
}

/// What answering a trace export gives: with no active session, nothing,
/// with the statistics unchanged; with one, its identifier and the HTTP
/// spans of the export in order, counted into the statistics.
pub open spec fn export_outcome(
    active: Option<String>,
    classifier: SpanClassifier,
    before: TraceStatistics,
    request: ExportTraceServiceRequest,
    r: Option<(String, Vec<HttpSpan>)>,
    after: TraceStatistics,
) -> bool {
    match active {
        None => r is None && after == before,
        Some(id) => r matches Some((sid, spans)) && sid@ == id@ && spans_of_items(classifier, export_items(request), spans@)
            && after.total_spans == before.total_spans + spans@.len()
            && after.incoming_requests == before.incoming_requests + count_direction(spans@, SpanDirection::Incoming, spans@.len() as int)
            && after.outgoing_requests == before.outgoing_requests + count_direction(spans@, SpanDirection::Outgoing, spans@.len() as int)
            && after.unique_endpoints == before.unique_endpoints
            && after.unique_dependencies == before.unique_dependencies
            && after.status_codes@ == codes_after(before.status_codes@, spans@, spans@.len() as int),
    }
}

/// Whether the statistics can count `n` more spans without overflow.
pub open spec fn stats_room(stats: TraceStatistics, n: int) -> bool {
    &&& stats.total_spans + n <= u64::MAX
    &&& stats.incoming_requests + n <= u64::MAX
    &&& stats.outgoing_requests + n <= u64::MAX
    &&& codes_room(stats.status_codes@, n)
}

/// The HTTP spans of a trace export for the active session, counted into
/// the statistics; `None`, with nothing counted, when no session is active.
pub fn process_export(
    active_session: &Option<String>,
    classifier: &SpanClassifier,
    stats: &mut TraceStatistics,
    request: &ExportTraceServiceRequest,
) -> (r: Option<(String, Vec<HttpSpan>)>)
    requires
        stats_room(*old(stats), export_items(*request).len() as int),
    ensures
        export_outcome(*active_session, *classifier, *old(stats), *request, r, *final(stats)),
{
    match active_session {
        None => None,
        Some(id) => {
            let spans = collect_http_spans(classifier, request);
            proof {
                lemma_http_items_len(export_items(*request), export_items(*request).len() as int);
            }
            stats.record_spans(spans.as_slice());
            Some((id.clone(), spans))
        },
    }
}

/// The HTTP answer to a trace export: 400 when the body did not decode,
/// 503 when no session is active, with the statistics unchanged in both;
/// otherwise 200, with what processing the export gives.
pub fn otlp_answer(
    decoded: Option<&ExportTraceServiceRequest>,
    active: &Option<String>,
    classifier: &SpanClassifier,
    stats: &mut TraceStatistics,
) -> (r: (u16, Option<(String, Vec<HttpSpan>)>))
    requires
        decoded matches Some(q) ==> stats_room(*old(stats), export_items(*q).len() as int),
    ensures
        match decoded {
            None => r.0 == 400 && r.1 is None && *final(stats) == *old(stats),
            Some(q) => r.0 == (if active is Some { 200u16 } else { 503u16 })
                && export_outcome(*active, *classifier, *old(stats), *q, r.1, *final(stats)),
        },
{
    match decoded {
        None => (400, None),
        Some(q) => {
            let out = process_export(active, classifier, stats, q);
            match active {
                Some(_) => (200, out),
                None => (503, out),
            }
        },
    }
}

} // verus!
