use hornet2::tracer::otlp_receiver::otlp_answer;
use hornet2::tracer::otlp_wire::{decode_export, decode_export_request, otlp_encoding, OtlpEncoding};
use hornet2::tracer::semantic_conventions::attributes::AttrValue;
use hornet2::tracer::span_classifier::SpanClassifier;
use hornet2::tracer::types::TraceStatistics;
use opentelemetry_proto::tonic::collector::trace::v1::ExportTraceServiceRequest as WireRequest;
use opentelemetry_proto::tonic::common::v1::{any_value, AnyValue, ArrayValue, KeyValue};
use opentelemetry_proto::tonic::resource::v1::Resource;
use opentelemetry_proto::tonic::trace::v1::{ResourceSpans, ScopeSpans, Span};
use prost::Message;

fn attr(key: &str, value: any_value::Value) -> KeyValue {
    KeyValue { key: key.to_string(), value: Some(AnyValue { value: Some(value) }) }
}

fn wire_request() -> WireRequest {
    let span = Span {
        trace_id: vec![0x0a, 0xff],
        span_id: vec![0x01],
        kind: 2,
        start_time_unix_nano: 1_000,
        end_time_unix_nano: 2_000,
        attributes: vec![
            attr("http.request.method", any_value::Value::StringValue("GET".to_string())),
            attr("url.path", any_value::Value::StringValue("/users".to_string())),
            attr("http.response.status_code", any_value::Value::IntValue(200)),
            attr("ratio", any_value::Value::DoubleValue(0.5)),
            attr(
                "list",
                any_value::Value::ArrayValue(ArrayValue {
                    values: vec![AnyValue { value: Some(any_value::Value::BoolValue(true)) }],
                }),
            ),
        ],
        ..Default::default()
    };
    WireRequest {
        resource_spans: vec![ResourceSpans {
            resource: Some(Resource {
                attributes: vec![attr("service.name", any_value::Value::StringValue("api".to_string()))],
                ..Default::default()
            }),
            scope_spans: vec![ScopeSpans { spans: vec![span], ..Default::default() }],
            ..Default::default()
        }],
    }
}

#[test]
fn otlp_encoding_follows_content_type() {
    assert_eq!(otlp_encoding("application/x-protobuf"), OtlpEncoding::Protobuf);
    assert_eq!(otlp_encoding("application/protobuf; charset=x"), OtlpEncoding::Protobuf);
    assert_eq!(otlp_encoding("application/json"), OtlpEncoding::Json);
    assert_eq!(otlp_encoding(""), OtlpEncoding::Unspecified);
    assert_eq!(otlp_encoding("text/plain"), OtlpEncoding::Unspecified);
}

#[test]
fn protobuf_body_decodes_into_the_model() {
    let body = wire_request().encode_to_vec();
    let q = decode_export_request(&body).unwrap();
    assert_eq!(q.resource_spans.len(), 1);
    let rs = &q.resource_spans[0];
    let res = rs.resource.as_ref().unwrap();
    assert_eq!(res.attributes[0].key, "service.name");
    assert!(matches!(&res.attributes[0].value, Some(AttrValue::Str(t)) if t == "api"));
    let sp = &rs.scope_spans[0].spans[0];
    assert_eq!(sp.trace_id, vec![0x0a, 0xff]);
    assert_eq!(sp.span_id, vec![0x01]);
    assert!(sp.parent_span_id.is_empty());
    assert_eq!(sp.kind, 2);
    assert_eq!(sp.start_time_unix_nano, 1_000);
    assert_eq!(sp.end_time_unix_nano, 2_000);
    assert_eq!(sp.attributes.len(), 5);
    assert!(matches!(&sp.attributes[2].value, Some(AttrValue::Int(200))));
    assert!(matches!(&sp.attributes[3].value, Some(AttrValue::Double(Some(t))) if t == "0.5"));
    match &sp.attributes[4].value {
        Some(AttrValue::Array(items)) => assert!(matches!(items.as_slice(), [AttrValue::Bool(true)])),
        _ => panic!("array expected"),
    }
}

#[test]
fn bad_bodies_give_errors() {
    assert!(decode_export_request(&[0xff, 0xff, 0xff]).is_err());
    let (e, r) = decode_export("application/json", b"{not json");
    assert_eq!(e, OtlpEncoding::Json);
    assert!(r.is_err());
}

#[test]
fn json_body_decodes_like_protobuf() {
    let body = serde_json::to_vec(&wire_request()).unwrap();
    let (e, r) = decode_export("application/json", &body);
    assert_eq!(e, OtlpEncoding::Json);
    let q = r.unwrap();
    let sp = &q.resource_spans[0].scope_spans[0].spans[0];
    assert_eq!(sp.trace_id, vec![0x0a, 0xff]);
    assert_eq!(sp.kind, 2);
    assert_eq!(sp.attributes.len(), 5);
    let (e, r) = decode_export("", &wire_request().encode_to_vec());
    assert_eq!(e, OtlpEncoding::Unspecified);
    assert_eq!(r.unwrap().resource_spans.len(), 1);
}

#[test]
fn otlp_answers() {
    let c = SpanClassifier::new();
    let mut stats = TraceStatistics::default();
    let (code, out) = otlp_answer(None, &Some("s".to_string()), &c, &mut stats);
    assert_eq!(code, 400);
    assert!(out.is_none());
    let q = decode_export_request(&wire_request().encode_to_vec()).unwrap();
    let (code, out) = otlp_answer(Some(&q), &None, &c, &mut stats);
    assert_eq!(code, 503);
    assert!(out.is_none());
    assert_eq!(stats.total_spans, 0);
    let (code, out) = otlp_answer(Some(&q), &Some("s".to_string()), &c, &mut stats);
    assert_eq!(code, 200);
    let (sid, spans) = out.unwrap();
    assert_eq!(sid, "s");
    assert_eq!(spans.len(), 1);
    assert_eq!(spans[0].service_name, "api");
    assert_eq!(stats.total_spans, 1);
    assert_eq!(stats.incoming_requests, 1);
    assert_eq!(stats.status_codes.len(), 1);
    assert_eq!(stats.status_codes.get(&200), Some(&1));
}
