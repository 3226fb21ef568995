//! Tracer configuration.

use vstd::prelude::*;
use crate::server::api::{decimal_digits, digits_value, lemma_digits_grow};
use crate::text::{chars_of, contains, lowercase, seq_contains, str_eq, to_lowercase, views_of};

verus! {

/// Tracer configuration.
pub struct TracerConfig {
    /// OTLP gRPC server port.
    pub grpc_port: u16,
    /// OTLP HTTP server port.
    pub http_port: u16,
    /// Storage path for trace data.
    pub store_path: String,
    /// Session timeout in seconds (inactive sessions are closed).
    pub session_timeout_secs: u64,
    /// Maximum spans to keep in memory before flushing.
    pub max_memory_spans: usize,
    /// Enable body capture.
    pub capture_bodies: bool,
    /// Maximum body size to capture.
    pub max_body_size: usize,
    /// Headers to capture (case-insensitive patterns).
    pub capture_headers: Vec<String>,
    /// Headers to redact (sensitive data).
    pub redact_headers: Vec<String>,
}

/// The headers captured by default.
pub open spec fn default_capture_headers() -> Seq<Seq<char>> {
    seq!["content-type"@, "accept"@, "user-agent"@, "x-request-id"@, "x-correlation-id"@]
}

/// The headers redacted by default.
pub open spec fn default_redact_headers() -> Seq<Seq<char>> {
    seq!["authorization"@, "cookie"@, "set-cookie"@, "x-api-key"@]
}

impl Default for TracerConfig {
    fn default() -> (c: Self)
        ensures
            c.grpc_port == 4317,
            c.http_port == 4318,
            c.store_path@ == ".hornet2/traces"@,
            c.session_timeout_secs == 1800,
            c.max_memory_spans == 10000,
            c.capture_bodies,
            c.max_body_size == 65536,
            views_of(c.capture_headers@) == default_capture_headers(),
            views_of(c.redact_headers@) == default_redact_headers(),
    {
        let capture_headers = vec![
            String::from_str("content-type"),
            String::from_str("accept"),
            String::from_str("user-agent"),
            String::from_str("x-request-id"),
            String::from_str("x-correlation-id"),
        ];
        let redact_headers = vec![
            String::from_str("authorization"),
            String::from_str("cookie"),
            String::from_str("set-cookie"),
            String::from_str("x-api-key"),
        ];
        assert(views_of(capture_headers@) =~= default_capture_headers());
        assert(views_of(redact_headers@) =~= default_redact_headers());
        TracerConfig {
            grpc_port: 4317,
            http_port: 4318,
            store_path: String::from_str(".hornet2/traces"),
            session_timeout_secs: 1800,
            max_memory_spans: 10000,
            capture_bodies: true,
            max_body_size: 65536,
            capture_headers,
            redact_headers,
        }
    }
}

/// The lower-cased header name contains one of the lower-cased patterns.
pub open spec fn matches_any(name: Seq<char>, patterns: Seq<String>) -> bool {
    exists|i: int| 0 <= i < patterns.len() && seq_contains(lowercase(name), lowercase(#[trigger] patterns[i]@))
}

/// Whether the lower-cased `name` contains one of the lower-cased patterns.
fn name_matches(name: &str, patterns: &Vec<String>) -> (r: bool)
    ensures
        r == matches_any(name@, patterns@),
{
    let lower = to_lowercase(name);
    let lc = chars_of(lower.as_str());
    let mut i: usize = 0;
    while i < patterns.len()
        invariant
            i <= patterns@.len(),
            lc@ == lowercase(name@),
            forall|j: int| 0 <= j < i ==> !seq_contains(lowercase(name@), lowercase(#[trigger] patterns@[j]@)),
        decreases patterns.len() - i,
    {
        let p = to_lowercase(patterns[i].as_str());
        let pc = chars_of(p.as_str());
        if contains(lc.as_slice(), pc.as_slice()) {
            return true;
        }
        i = i + 1;
    }
    false
}

impl TracerConfig {
    /// Whether a header is captured: its lower-cased name contains one of
    /// the lower-cased capture patterns.
    pub fn should_capture_header(&self, header_name: &str) -> (r: bool)
        ensures
            r == matches_any(header_name@, self.capture_headers@),
    {
        name_matches(header_name, &self.capture_headers)
    }

    /// Whether a header is redacted: its lower-cased name contains one of
    /// the lower-cased redaction patterns.
    pub fn should_redact_header(&self, header_name: &str) -> (r: bool)
        ensures
            r == matches_any(header_name@, self.redact_headers@),
    {
        name_matches(header_name, &self.redact_headers)
    }

    /// The value shown in place of a redacted header's value.
    pub fn redact_value(&self, header_name: &str, value: &str) -> (s: String)
        ensures
            s@ == "[REDACTED:"@ + lowercase(header_name@) + "]"@,
    {
        let mut s = String::from_str("[REDACTED:");
        s.append(to_lowercase(header_name).as_str());
        s.append("]");
        s
    }
}

// ---------------------------------------------------------------- settings

/// The number a text reads as when it is at most `max`: an optional `+`,
/// then decimal digits, as `str::parse` reads an unsigned integer.
pub open spec fn parsed_bounded(s: Seq<char>, max: nat) -> Option<nat> {
    let d = if s.len() > 0 && s[0] == '+' {
        s.drop_first()
    } else {
        s
    };
    if d.len() > 0 && decimal_digits(d) && digits_value(d) <= max {
        Some(digits_value(d))
    } else {
        None
    }
}

/// A setting read as a number up to `max`, or `default` when it is absent
/// or does not read as one.
pub open spec fn number_setting(s: Option<&str>, max: nat, default: nat) -> nat {
    match s {
        Some(t) => match parsed_bounded(t@, max) {
            Some(v) => v,
            None => default,
        },
        None => default,
    }
}

/// A yes-or-no setting: yes when it is `true` in any case or `1`.
pub open spec fn flag_setting(s: Option<&str>, default: bool) -> bool {
    match s {
        Some(t) => lowercase(t@) == "true"@ || t@ == "1"@,
        None => default,
    }
}

/// When a prefix of a text of digits is worth more than `max`, so is the
/// text, or it is not all digits.
proof fn lemma_exceeds(d: Seq<char>, n: int, max: nat)
    requires
        0 < n <= d.len(),
        digits_value(d.subrange(0, n)) > max,
    ensures
        !(decimal_digits(d) && digits_value(d) <= max),
{
    if decimal_digits(d) {
        lemma_digits_grow(d, n);
    }
}

/// The number a text reads as, when it is at most `max`.
pub fn parse_bounded(s: &str, max: u64) -> (r: Option<u64>)
    ensures
        match r {
            Some(v) => parsed_bounded(s@, max as nat) == Some(v as nat),
            None => parsed_bounded(s@, max as nat) is None,
        },
{
    let c = chars_of(s);
    let start: usize = if c.len() > 0 && c[0] == '+' { 1 } else { 0 };
    let ghost d = if s@.len() > 0 && s@[0] == '+' { s@.drop_first() } else { s@ };
    assert(d =~= c@.subrange(start as int, c@.len() as int));
    if start >= c.len() {
        return None;
    }
    let mut acc: u64 = 0;
    let mut i: usize = start;
    while i < c.len()
        invariant
            start <= i <= c@.len(),
            c@ == s@,
            d == (if s@.len() > 0 && s@[0] == '+' { s@.drop_first() } else { s@ }),
            d == c@.subrange(start as int, c@.len() as int),
            decimal_digits(d.subrange(0, i - start)),
            acc == digits_value(d.subrange(0, i - start)),
            acc <= max,
        decreases c.len() - i,
    {
        let ch = c[i];
        assert(d[i - start] == ch);
        if !('0' <= ch && ch <= '9') {
            assert(!decimal_digits(d));
            return None;
        }
        let ghost t = d.subrange(0, i - start + 1);
        assert(t.drop_last() =~= d.subrange(0, i - start));
        assert(t.last() == ch);
        let digit = ((ch as u32) - ('0' as u32)) as u64;
        let next = match acc.checked_mul(10) {
            Some(a) => a.checked_add(digit),
            None => None,
        };
        match next {
            Some(b) if b <= max => {
                acc = b;
            },
            _ => {
                proof { lemma_exceeds(d, i - start + 1, max as nat); }
                return None;
            },
        }
        i = i + 1;
    }
    assert(d.subrange(0, i - start) =~= d);
    Some(acc)
}

impl TracerConfig {
    /// The configuration with the given settings applied over the defaults:
    /// the ports, the session timeout, the span limit and the body size
    /// where they read as numbers that fit, the store path as given, and
    /// body capture switched on by `true` (in any case) or `1`.
    pub fn from_settings(
        grpc_port: Option<&str>,
        http_port: Option<&str>,
        store_path: Option<&str>,
        session_timeout_secs: Option<&str>,
        max_memory_spans: Option<&str>,
        capture_bodies: Option<&str>,
        max_body_size: Option<&str>,
    ) -> (c: Self)
        ensures
            c.grpc_port == number_setting(grpc_port, u16::MAX as nat, 4317),
            c.http_port == number_setting(http_port, u16::MAX as nat, 4318),
            c.store_path@ == match store_path {
                Some(p) => p@,
                None => ".hornet2/traces"@,
            },
            c.session_timeout_secs == number_setting(session_timeout_secs, u64::MAX as nat, 1800),
            c.max_memory_spans == number_setting(max_memory_spans, usize::MAX as nat, 10000),
            c.capture_bodies == flag_setting(capture_bodies, true),
            c.max_body_size == number_setting(max_body_size, usize::MAX as nat, 65536),
            views_of(c.capture_headers@) == default_capture_headers(),
            views_of(c.redact_headers@) == default_redact_headers(),
    {
        let mut c = TracerConfig::default();
        if let Some(t) = grpc_port {
            if let Some(v) = parse_bounded(t, 65535) {
                c.grpc_port = v as u16;
            }
        }
        if let Some(t) = http_port {
            if let Some(v) = parse_bounded(t, 65535) {
                c.http_port = v as u16;
            }
        }
        if let Some(p) = store_path {
            c.store_path = String::from_str(p);
        }
        if let Some(t) = session_timeout_secs {
            if let Some(v) = parse_bounded(t, u64::MAX) {
                c.session_timeout_secs = v;
            }
        }
        if let Some(t) = max_memory_spans {
            if let Some(v) = parse_bounded(t, usize::MAX as u64) {
                c.max_memory_spans = v as usize;
            }
        }
        if let Some(t) = capture_bodies {
            c.capture_bodies = str_eq(to_lowercase(t).as_str(), "true") || str_eq(t, "1");
        }
        if let Some(t) = max_body_size {
            if let Some(v) = parse_bounded(t, usize::MAX as u64) {
                c.max_body_size = v as usize;
            }
        }
        c
    }
}

} // verus!
