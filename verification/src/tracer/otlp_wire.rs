//! The bodies of OTLP/HTTP trace exports: which encoding a request names,
//! and the export request a body decodes to.

use vstd::prelude::*;
use prost::Message;
use opentelemetry_proto::tonic::collector::trace::v1::ExportTraceServiceRequest as WireRequest;
use opentelemetry_proto::tonic::common::v1::any_value::Value as WireValue;
use opentelemetry_proto::tonic::common::v1::{AnyValue, KeyValue as WireKeyValue};
use opentelemetry_proto::tonic::trace::v1::Span as WireSpan;
use crate::text::{chars_of, contains, seq_contains};
use crate::tracer::otlp_receiver::{ExportTraceServiceRequest, Resource, ResourceSpans, ScopeSpans};
use crate::tracer::semantic_conventions::attributes::{AttrValue, KeyValue};
use crate::tracer::span_classifier::Span;

verus! {

/// The encoding of an OTLP/HTTP body.
#[derive(Clone, Copy, Debug, PartialEq, Eq, Structural)]
pub enum OtlpEncoding {
    /// Named as protobuf by the content type.
    Protobuf,
    /// Named as JSON by the content type.
    Json,
    /// Not named; read as protobuf.
    Unspecified,
}

/// The encoding a content type names: protobuf when it mentions
/// `application/x-protobuf` or `application/protobuf`, else JSON when it
/// mentions `application/json`.
pub open spec fn encoding_of(content_type: Seq<char>) -> OtlpEncoding {
    if seq_contains(content_type, "application/x-protobuf"@) || seq_contains(
        content_type,
        "application/protobuf"@,
    ) {
        OtlpEncoding::Protobuf
    } else if seq_contains(content_type, "application/json"@) {
        OtlpEncoding::Json
    } else {
        OtlpEncoding::Unspecified
    }
}

/// The encoding that `content_type` names.
pub fn otlp_encoding(content_type: &str) -> (e: OtlpEncoding)
    ensures
        e == encoding_of(content_type@),
{
    let ct = chars_of(content_type);
    let x_protobuf = chars_of("application/x-protobuf");
    let protobuf = chars_of("application/protobuf");
    let json = chars_of("application/json");
    if contains(ct.as_slice(), x_protobuf.as_slice()) || contains(ct.as_slice(), protobuf.as_slice()) {
        OtlpEncoding::Protobuf
    } else if contains(ct.as_slice(), json.as_slice()) {
        OtlpEncoding::Json
    } else {
        OtlpEncoding::Unspecified
    }
}

/// An OTLP export request of the `opentelemetry-proto` crate, held opaque.
#[verifier::external_type_specification]
#[verifier::external_body]
pub struct ExWireRequest(WireRequest);

/// An OTLP span of the `opentelemetry-proto` crate, held opaque.
#[verifier::external_type_specification]
#[verifier::external_body]
pub struct ExWireSpan(WireSpan);

/// An OTLP attribute of the `opentelemetry-proto` crate, held opaque.
#[verifier::external_type_specification]
#[verifier::external_body]
pub struct ExWireKeyValue(WireKeyValue);

/// An OTLP attribute value of the `opentelemetry-proto` crate, held opaque.
#[verifier::external_type_specification]
#[verifier::external_body]
pub struct ExAnyValue(AnyValue);

/// What `prost` decodes a protobuf body as, in this library's model of an
/// export request, or the text of its decoding error.
pub uninterp spec fn protobuf_export(body: Seq<u8>) -> Result<ExportTraceServiceRequest, Seq<char>>;

/// What `serde_json` reads a JSON body as, in this library's model of an
/// export request, or the text of its error.
pub uninterp spec fn json_export(body: Seq<u8>) -> Result<ExportTraceServiceRequest, Seq<char>>;

/// Whether a decoding result is the named one, the error taken as text.
pub open spec fn decoded_as(
    r: Result<ExportTraceServiceRequest, String>,
    named: Result<ExportTraceServiceRequest, Seq<char>>,
) -> bool {
    match r {
        Ok(q) => named == Ok::<ExportTraceServiceRequest, Seq<char>>(q),
        Err(e) => named == Err::<ExportTraceServiceRequest, Seq<char>>(e@),
    }
}

/// `prost::Message::decode` of an OTLP `ExportTraceServiceRequest` from a
/// protobuf body, carried over one for one into this library's model; on
/// failure, the text of the decoding error. Both are named, not restated.
#[verifier::external_body]
pub fn decode_export_request(body: &[u8]) -> (r: Result<ExportTraceServiceRequest, String>)
    ensures
        match r {
            Ok(q) => protobuf_export(body@) == Ok::<ExportTraceServiceRequest, Seq<char>>(q),
            Err(e) => protobuf_export(body@) == Err::<ExportTraceServiceRequest, Seq<char>>(e@),
        },
{
    match WireRequest::decode(body) {
        Ok(w) => Ok(from_wire_request(&w)),
        Err(e) => Err(e.to_string()),
    }
}

/// `serde_json::from_slice` of an OTLP `ExportTraceServiceRequest` from a
/// JSON body, carried over one for one into this library's model; on
/// failure, the text of the error. Both are named, not restated.
#[verifier::external_body]
pub fn decode_export_json(body: &[u8]) -> (r: Result<ExportTraceServiceRequest, String>)
    ensures
        match r {
            Ok(q) => json_export(body@) == Ok::<ExportTraceServiceRequest, Seq<char>>(q),
            Err(e) => json_export(body@) == Err::<ExportTraceServiceRequest, Seq<char>>(e@),
        },
{
    match serde_json::from_slice::<WireRequest>(body) {
        Ok(w) => Ok(from_wire_request(&w)),
        Err(e) => Err(e.to_string()),
    }
}

/// An OTLP export request as a value of this library, one for one.
#[verifier::external_body]
fn from_wire_request(w: &WireRequest) -> ExportTraceServiceRequest {
    ExportTraceServiceRequest {
        resource_spans: w.resource_spans.iter().map(|rs| ResourceSpans {
            resource: rs.resource.as_ref().map(
                |r| Resource { attributes: r.attributes.iter().map(from_wire_key_value).collect() },
            ),
            scope_spans: rs.scope_spans.iter().map(
                |ss| ScopeSpans { spans: ss.spans.iter().map(from_wire_span).collect() },
            ).collect(),
        }).collect(),
    }
}

/// An OTLP span as a value of this library, one for one.
#[verifier::external_body]
fn from_wire_span(s: &WireSpan) -> Span {
    Span {
        trace_id: s.trace_id.clone(),
        span_id: s.span_id.clone(),
        parent_span_id: s.parent_span_id.clone(),
        kind: s.kind,
        start_time_unix_nano: s.start_time_unix_nano,
        end_time_unix_nano: s.end_time_unix_nano,
        attributes: s.attributes.iter().map(from_wire_key_value).collect(),
    }
}

/// An OTLP attribute as a value of this library, one for one.
#[verifier::external_body]
fn from_wire_key_value(kv: &WireKeyValue) -> KeyValue {
    KeyValue { key: kv.key.clone(), value: kv.value.as_ref().map(from_wire_any_value) }
}

/// An OTLP attribute value as a value of this library, one for one; a
/// double as the text `serde_json` writes for it.
#[verifier::external_body]
fn from_wire_any_value(v: &AnyValue) -> AttrValue {
    match &v.value {
        None => AttrValue::Empty,
        Some(WireValue::StringValue(s)) => AttrValue::Str(s.clone()),
        Some(WireValue::BoolValue(b)) => AttrValue::Bool(*b),
        Some(WireValue::IntValue(i)) => AttrValue::Int(*i),
        Some(WireValue::DoubleValue(d)) => AttrValue::Double(serde_json::Number::from_f64(*d).map(|n| n.to_string())),
        Some(WireValue::ArrayValue(a)) => AttrValue::Array(a.values.iter().map(from_wire_any_value).collect()),
        Some(WireValue::KvlistValue(l)) => AttrValue::KvList(l.values.iter().map(from_wire_key_value).collect()),
        Some(WireValue::BytesValue(b)) => AttrValue::Bytes(b.clone()),
    }
}

/// The encoding a content type names and what the body decodes to in it:
/// JSON bodies are read as JSON, all others as protobuf.
pub fn decode_export(content_type: &str, body: &[u8]) -> (r: (
    OtlpEncoding,
    Result<ExportTraceServiceRequest, String>,
))
    ensures
        r.0 == encoding_of(content_type@),
        decoded_as(
            r.1,
            if r.0 == OtlpEncoding::Json {
                json_export(body@)
            } else {
                protobuf_export(body@)
            },
        ),
{
    let e = otlp_encoding(content_type);
    match e {
        OtlpEncoding::Json => (e, decode_export_json(body)),
        _ => (e, decode_export_request(body)),
    }
}

} // verus!
