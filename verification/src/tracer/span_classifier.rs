//! Classification of spans: which OTLP spans are HTTP requests, in which
//! direction, what they hold, and which requests are calls to external
//! dependencies.

use vstd::prelude::*;
use crate::json::{parse_json, parsed_json, Json, JsonValue};
use crate::text::{chars_of, contains, opt_view, seq_contains, str_eq, views_of};
use crate::tracer::inference::schema_inferrer::{lemma_utf8_len_prefix, map_insert, map_insert_exec, mviews, utf8_len, char_utf8_len};
use crate::tracer::semantic_conventions::attributes::{attr_int, attr_json, attr_string, AttributeExtractor, KeyValue};
use crate::tracer::semantic_conventions::{client, http, server, service, span_kind, url};
use crate::tracer::types::{BodyData, CapturedBody, HttpSpan, SpanDirection};

verus! {

/// Classifies spans.
pub struct SpanClassifier {
    /// Hosts considered internal (requests to them are not dependencies).
    pub internal_hosts: Vec<String>,
    /// Whether bodies are captured.
    pub capture_bodies: bool,
    /// Maximum body size.
    pub max_body_size: usize,
}

/// The host and an internal host pattern overlap: either contains the other.
pub open spec fn host_overlaps(host: Seq<char>, internal: Seq<char>) -> bool {
    seq_contains(host, internal) || seq_contains(internal, host)
}

/// A span is a call to an external dependency: it is outgoing and its
/// server overlaps no internal host.
pub open spec fn is_external(span: HttpSpan, internal: Seq<String>) -> bool {
    span.direction == SpanDirection::Outgoing && !(exists|i: int|
        0 <= i < internal.len() && host_overlaps(span.server_address@, #[trigger] internal[i]@))
}

impl SpanClassifier {
    /// A classifier with no internal hosts that captures bodies of up to
    /// 64 KiB.
    pub fn new() -> (c: Self)
        ensures
            c.internal_hosts@.len() == 0,
            c.capture_bodies,
            c.max_body_size == 65536,
    {
        SpanClassifier { internal_hosts: Vec::new(), capture_bodies: true, max_body_size: 65536 }
    }

    /// The classifier with these internal hosts.
    pub fn with_internal_hosts(self, hosts: Vec<String>) -> (c: Self)
        ensures
            c.internal_hosts@ == hosts@,
            c.capture_bodies == self.capture_bodies,
            c.max_body_size == self.max_body_size,
    {
        SpanClassifier { internal_hosts: hosts, ..self }
    }

    /// The classifier with this body capture configuration.
    pub fn with_body_capture(self, capture: bool, max_size: usize) -> (c: Self)
        ensures
            c.internal_hosts@ == self.internal_hosts@,
            c.capture_bodies == capture,
            c.max_body_size == max_size,
    {
        SpanClassifier { capture_bodies: capture, max_body_size: max_size, ..self }
    }

    /// Whether a span is a call to an external dependency.
    pub fn is_external_dependency(&self, span: &HttpSpan) -> (r: bool)
        ensures
            r == is_external(*span, self.internal_hosts@),
    {
        if span.direction != SpanDirection::Outgoing {
            return false;
        }
        let host = chars_of(span.server_address.as_str());
        let mut i: usize = 0;
        while i < self.internal_hosts.len()
            invariant
                i <= self.internal_hosts@.len(),
                host@ == span.server_address@,
                forall|j: int| 0 <= j < i ==> !host_overlaps(span.server_address@, #[trigger] self.internal_hosts@[j]@),
            decreases self.internal_hosts.len() - i,
        {
            let internal = chars_of(self.internal_hosts[i].as_str());
            if contains(host.as_slice(), internal.as_slice()) || contains(internal.as_slice(), host.as_slice()) {
                return false;
            }
            i = i + 1;
        }
        true
    }
}

impl Default for SpanClassifier {
    fn default() -> (c: Self)
        ensures
            c.internal_hosts@.len() == 0,
            c.capture_bodies,
            c.max_body_size == 65536,
    {
        Self::new()
    }
}


// ---------------------------------------------------------------- OTLP spans

/// An OTLP span: the parts of it that classification reads.
pub struct Span {
    pub trace_id: Vec<u8>,
    pub span_id: Vec<u8>,
    /// Empty for a root span.
    pub parent_span_id: Vec<u8>,
    /// The span kind (`2` server, `3` client).
    pub kind: i32,
    pub start_time_unix_nano: u64,
    pub end_time_unix_nano: u64,
    pub attributes: Vec<KeyValue>,
}

/// A hexadecimal digit in lower case.
pub open spec fn hex_digit(n: int) -> char {
    if n < 10 {
        (48 + n) as char
    } else {
        (97 + n - 10) as char
    }
}

/// Bytes as lower-case hexadecimal text, two digits per byte.
pub open spec fn hex_text(b: Seq<u8>) -> Seq<char>
    decreases b.len(),
{
    if b.len() == 0 {
        Seq::empty()
    } else {
        hex_text(b.drop_last()) + seq![hex_digit(b.last() as int / 16), hex_digit(b.last() as int % 16)]
    }
}

/// `hex::encode` of the `hex` crate: the bytes as lower-case hexadecimal
/// text, two digits per byte.
#[verifier::external_body]
fn hex_encode(bytes: &[u8]) -> (r: String)
    ensures
        r@ == hex_text(bytes@),
{
    hex::encode(bytes)
}

/// The text, or `d` when there is none.
pub open spec fn text_or(o: Option<Seq<char>>, d: Seq<char>) -> Seq<char> {
    match o {
        Some(t) => t,
        None => d,
    }
}

/// The attribute holding a body's size.
pub open spec fn size_key(prefix: Seq<char>) -> Seq<char> {
    "http."@ + prefix + ".body.size"@
}

/// The attribute holding a body.
pub open spec fn body_key(prefix: Seq<char>) -> Seq<char> {
    "http."@ + prefix + ".body"@
}

/// The attribute holding a body's content type.
pub open spec fn content_type_key(prefix: Seq<char>) -> Seq<char> {
    "http."@ + prefix + ".header.content-type"@
}

/// The body that the attributes with `prefix` describe: none when bodies
/// are not captured or no size is given; else its size and content type,
/// and the body itself as JSON when it parses, as text when it does not,
/// marked too large when longer than the limit, or marked not captured when
/// absent.
pub open spec fn body_for(c: SpanClassifier, attrs: Seq<KeyValue>, prefix: Seq<char>, b: Option<CapturedBody>) -> bool {
    let size = (match attr_int(attrs, size_key(prefix)) {
        Some(i) => i,
        None => 0,
    }) as usize;
    if !c.capture_bodies || size == 0 {
        b is None
    } else {
        &&& b matches Some(cb)
        &&& cb.size == size
        &&& opt_view(cb.content_type) == attr_string(attrs, content_type_key(prefix))
        &&& match attr_string(attrs, body_key(prefix)) {
            Some(t) => if utf8_len(t) > c.max_body_size {
                cb.data is TooLarge
            } else {
                match parsed_json(t) {
                    Some(j) => cb.data matches BodyData::Json(v) && v@ == j,
                    None => cb.data matches BodyData::Text(x) && x@ == t,
                }
            },
            None => cb.data is NotCaptured,
        }
    }
}

/// An attribute that the fields of an HTTP span already hold.
pub open spec fn known_key(k: Seq<char>) -> bool {
    ||| k == http::HTTP_REQUEST_METHOD@
    ||| k == http::HTTP_RESPONSE_STATUS_CODE@
    ||| k == http::HTTP_ROUTE@
    ||| k == url::URL_PATH@
    ||| k == url::URL_QUERY@
    ||| k == url::URL_SCHEME@
    ||| k == server::SERVER_ADDRESS@
    ||| k == server::SERVER_PORT@
    ||| k == client::CLIENT_ADDRESS@
}

/// The other attributes among the first `n` that have a value, as JSON, by
/// name (a later attribute of the same name replaces an earlier one).
pub open spec fn extra_attributes(attrs: Seq<KeyValue>, n: int) -> Seq<(Seq<char>, Json)>
    decreases n,
{
    if n <= 0 || n > attrs.len() {
        Seq::empty()
    } else if known_key(attrs[n - 1].key@) {
        extra_attributes(attrs, n - 1)
    } else {
        match attrs[n - 1].value {
            Some(v) => map_insert(extra_attributes(attrs, n - 1), attrs[n - 1].key@, attr_json(v)),
            None => extra_attributes(attrs, n - 1),
        }
    }
}

/// An HTTP request span: it has a request method and is a server or client
/// span.
pub open spec fn is_http_span(span: Span) -> bool {
    attr_string(span.attributes@, http::HTTP_REQUEST_METHOD@) is Some && (span.kind == span_kind::SERVER
        || span.kind == span_kind::CLIENT)
}

/// The HTTP span made of an OTLP span and the attributes of its resource.
pub open spec fn http_span_for(c: SpanClassifier, span: Span, res: Seq<KeyValue>, h: HttpSpan) -> bool {
    let a = span.attributes@;
    let scheme = text_or(attr_string(a, url::URL_SCHEME@), "http"@);
    &&& h.trace_id@ == hex_text(span.trace_id@)
    &&& h.span_id@ == hex_text(span.span_id@)
    &&& opt_view(h.parent_span_id) == (if span.parent_span_id@.len() == 0 {
        None
    } else {
        Some(hex_text(span.parent_span_id@))
    })
    &&& h.start_time == span.start_time_unix_nano
    &&& h.end_time == span.end_time_unix_nano
    &&& h.service_name@ == text_or(attr_string(res, service::SERVICE_NAME@), "unknown"@)
    &&& opt_view(h.service_version) == attr_string(res, service::SERVICE_VERSION@)
    &&& h.direction == (if span.kind == span_kind::SERVER {
        SpanDirection::Incoming
    } else {
        SpanDirection::Outgoing
    })
    &&& Some(h.method@) == attr_string(a, http::HTTP_REQUEST_METHOD@)
    &&& h.path@ == text_or(attr_string(a, url::URL_PATH@), "/"@)
    &&& opt_view(h.route) == attr_string(a, http::HTTP_ROUTE@)
    &&& opt_view(h.query) == attr_string(a, url::URL_QUERY@)
    &&& h.scheme@ == scheme
    &&& h.status_code == (match attr_int(a, http::HTTP_RESPONSE_STATUS_CODE@) {
        Some(i) => i,
        None => 0,
    }) as u16
    &&& h.server_address@ == text_or(attr_string(a, server::SERVER_ADDRESS@), "localhost"@)
    &&& h.server_port == (match attr_int(a, server::SERVER_PORT@) {
        Some(i) => i,
        None => if scheme == "https"@ {
            443
        } else {
            80
        },
    }) as u16
    &&& opt_view(h.client_address) == attr_string(a, client::CLIENT_ADDRESS@)
    &&& body_for(c, a, "request"@, h.request_body)
    &&& body_for(c, a, "response"@, h.response_body)
    &&& h.request_headers@.len() == 0
    &&& h.response_headers@.len() == 0
    &&& mviews(h.attributes@) == extra_attributes(a, a.len() as int)
}

/// Whether the text is longer than `max` bytes in UTF-8.
fn utf8_longer_than(s: &str, max: usize) -> (r: bool)
    ensures
        r == (utf8_len(s@) > max),
{
    let c = chars_of(s);
    let mut sum: u128 = 0;
    let mut i: usize = 0;
    assert(c@.subrange(0, 0) =~= Seq::<char>::empty());
    while i < c.len()
        invariant
            i <= c@.len(),
            c@ == s@,
            sum == utf8_len(c@.subrange(0, i as int)),
            sum <= max,
        decreases c.len() - i,
    {
        let ch = c[i] as u32;
        let w: u128 = if ch < 0x80 { 1 } else if ch < 0x800 { 2 } else if ch < 0x10000 { 3 } else { 4 };
        assert(c@.subrange(0, i + 1).drop_last() =~= c@.subrange(0, i as int));
        sum = sum + w;
        i = i + 1;
        if sum > max as u128 {
            proof {
                lemma_utf8_len_prefix(c@, i as int, c@.len() as int);
                assert(c@.subrange(0, c@.len() as int) =~= c@);
            }
            return true;
        }
    }
    assert(c@.subrange(0, c@.len() as int) =~= c@);
    false
}

/// `"http." + prefix + rest`.
fn prefixed_key(prefix: &str, rest: &str) -> (r: String)
    ensures
        r@ == "http."@ + prefix@ + rest@,
{
    let mut k = String::from_str("http.");
    k.append(prefix);
    k.append(rest);
    k
}

impl SpanClassifier {
    /// The body that the attributes with `prefix` (`request` or `response`)
    /// describe.
    fn extract_body(&self, attributes: &[KeyValue], prefix: &str) -> (r: Option<CapturedBody>)
        ensures
            body_for(*self, attributes@, prefix@, r),
    {
        let size_k = prefixed_key(prefix, ".body.size");
        let size = match AttributeExtractor::get_int(attributes, size_k.as_str()) {
            Some(i) => i,
            None => 0,
        } as usize;
        if !self.capture_bodies || size == 0 {
            return None;
        }
        let body_k = prefixed_key(prefix, ".body");
        let ct_k = prefixed_key(prefix, ".header.content-type");
        let content_type = AttributeExtractor::get_string(attributes, ct_k.as_str());
        let data = match AttributeExtractor::get_string(attributes, body_k.as_str()) {
            Some(t) => {
                if utf8_longer_than(t.as_str(), self.max_body_size) {
                    BodyData::TooLarge
                } else {
                    match parse_json(t.as_str()) {
                        Some(j) => BodyData::Json(j),
                        None => BodyData::Text(t),
                    }
                }
            },
            None => BodyData::NotCaptured,
        };
        Some(CapturedBody { content_type, size, data })
    }

    /// The other attributes, as JSON, by name.
    fn extract_additional_attributes(&self, attributes: &[KeyValue]) -> (r: Vec<(String, JsonValue)>)
        ensures
            mviews(r@) == extra_attributes(attributes@, attributes@.len() as int),
    {
        let known: [&str; 9] = [
            http::HTTP_REQUEST_METHOD,
            http::HTTP_RESPONSE_STATUS_CODE,
            http::HTTP_ROUTE,
            url::URL_PATH,
            url::URL_QUERY,
            url::URL_SCHEME,
            server::SERVER_ADDRESS,
            server::SERVER_PORT,
            client::CLIENT_ADDRESS,
        ];
        let mut out: Vec<(String, JsonValue)> = Vec::new();
        assert(mviews(out@) =~= Seq::<(Seq<char>, Json)>::empty());
        let mut n: usize = 0;
        while n < attributes.len()
            invariant
                n <= attributes@.len(),
                known@ == seq![
                    http::HTTP_REQUEST_METHOD,
                    http::HTTP_RESPONSE_STATUS_CODE,
                    http::HTTP_ROUTE,
                    url::URL_PATH,
                    url::URL_QUERY,
                    url::URL_SCHEME,
                    server::SERVER_ADDRESS,
                    server::SERVER_PORT,
                    client::CLIENT_ADDRESS,
                ],
                mviews(out@) == extra_attributes(attributes@, n as int),
            decreases attributes.len() - n,
        {
            let kv = &attributes[n];
            let mut is_known = false;
            let mut q: usize = 0;
            while q < 9
                invariant
                    q <= 9,
                    known@.len() == 9,
                    is_known == exists|j: int| 0 <= j < q && kv.key@ == (#[trigger] known@[j])@,
                decreases 9 - q,
            {
                if str_eq(kv.key.as_str(), known[q]) {
                    is_known = true;
                }
                q = q + 1;
            }
            assert(is_known == known_key(kv.key@)) by {
                if known_key(kv.key@) {
                    if kv.key@ == http::HTTP_REQUEST_METHOD@ { assert(kv.key@ == known@[0]@); }
                    else if kv.key@ == http::HTTP_RESPONSE_STATUS_CODE@ { assert(kv.key@ == known@[1]@); }
                    else if kv.key@ == http::HTTP_ROUTE@ { assert(kv.key@ == known@[2]@); }
                    else if kv.key@ == url::URL_PATH@ { assert(kv.key@ == known@[3]@); }
                    else if kv.key@ == url::URL_QUERY@ { assert(kv.key@ == known@[4]@); }
                    else if kv.key@ == url::URL_SCHEME@ { assert(kv.key@ == known@[5]@); }
                    else if kv.key@ == server::SERVER_ADDRESS@ { assert(kv.key@ == known@[6]@); }
                    else if kv.key@ == server::SERVER_PORT@ { assert(kv.key@ == known@[7]@); }
                    else { assert(kv.key@ == known@[8]@); }
                }
            }
            if !is_known {
                match &kv.value {
                    Some(v) => {
                        let j = AttributeExtractor::any_value_to_json(v);
                        map_insert_exec(&mut out, kv.key.clone(), j);
                    },
                    None => {},
                }
            }
            n = n + 1;
        }
        out
    }

    /// The HTTP span an OTLP span stands for, with the attributes of its
    /// resource; `None` for a span that is not an HTTP request of a server
    /// or client. Times are kept in nanoseconds.
    pub fn classify(&self, span: &Span, resource_attrs: &[KeyValue]) -> (r: Option<HttpSpan>)
        ensures
            match r {
                Some(h) => is_http_span(*span) && http_span_for(*self, *span, resource_attrs@, h),
                None => !is_http_span(*span),
            },
    {
        let a = span.attributes.as_slice();
        let method = match AttributeExtractor::get_string(a, http::HTTP_REQUEST_METHOD) {
            Some(m) => m,
            None => {
                return None;
            },
        };
        let direction = if span.kind == span_kind::SERVER {
            SpanDirection::Incoming
        } else if span.kind == span_kind::CLIENT {
            SpanDirection::Outgoing
        } else {
            return None;
        };
        let service_name = match AttributeExtractor::get_string(resource_attrs, service::SERVICE_NAME) {
            Some(n) => n,
            None => String::from_str("unknown"),
        };
        let path = match AttributeExtractor::get_string(a, url::URL_PATH) {
            Some(p) => p,
            None => String::from_str("/"),
        };
        let scheme = match AttributeExtractor::get_string(a, url::URL_SCHEME) {
            Some(x) => x,
            None => String::from_str("http"),
        };
        let status = match AttributeExtractor::get_int(a, http::HTTP_RESPONSE_STATUS_CODE) {
            Some(i) => i,
            None => 0,
        };
        let server_address = match AttributeExtractor::get_string(a, server::SERVER_ADDRESS) {
            Some(x) => x,
            None => String::from_str("localhost"),
        };
        let https = str_eq(scheme.as_str(), "https");
        proof { reveal_strlit("https"); }
        let port = match AttributeExtractor::get_int(a, server::SERVER_PORT) {
            Some(i) => i,
            None => if https { 443 } else { 80 },
        };
        let parent_span_id = if span.parent_span_id.len() == 0 {
            None
        } else {
            Some(hex_encode(span.parent_span_id.as_slice()))
        };
        proof { reveal_strlit("request"); reveal_strlit("response"); }
        Some(HttpSpan {
            trace_id: hex_encode(span.trace_id.as_slice()),
            span_id: hex_encode(span.span_id.as_slice()),
            parent_span_id,
            start_time: span.start_time_unix_nano,
            end_time: span.end_time_unix_nano,
            service_name,
            service_version: AttributeExtractor::get_string(resource_attrs, service::SERVICE_VERSION),
            direction,
            method,
            path,
            route: AttributeExtractor::get_string(a, http::HTTP_ROUTE),
            query: AttributeExtractor::get_string(a, url::URL_QUERY),
            scheme,
            status_code: status as u16,
            server_address,
            server_port: port as u16,
            client_address: AttributeExtractor::get_string(a, client::CLIENT_ADDRESS),
            request_body: self.extract_body(a, "request"),
            response_body: self.extract_body(a, "response"),
            request_headers: Vec::new(),
            response_headers: Vec::new(),
            attributes: self.extract_additional_attributes(a),
        })
    }
}

} // verus!
