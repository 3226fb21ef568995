//! What the trace store computes from a session's spans: the endpoints and
//! dependencies seen with how often, pages of spans, and the spans of one
//! trace.

pub mod memory;

pub use memory::MemoryStore;

use vstd::prelude::*;
use crate::text::str_eq;
use crate::tracer::types::{HttpSpan, SpanDirection};

verus! {

/// The tally with one more `k`: its count raised, or `k` added with a count
/// of one.
pub open spec fn bump<K>(cs: Seq<(K, nat)>, k: K) -> Seq<(K, nat)> {
    if exists|i: int| 0 <= i < cs.len() && (#[trigger] cs[i]).0 == k {
        let i = choose|i: int| 0 <= i < cs.len() && (#[trigger] cs[i]).0 == k;
        cs.update(i, (k, cs[i].1 + 1))
    } else {
        cs.push((k, 1nat))
    }
}

/// How often each of the first `n` keys occurs, keys in order of first
/// appearance.
pub open spec fn tally<K>(keys: Seq<K>, n: int) -> Seq<(K, nat)>
    decreases n,
{
    if n <= 0 || n > keys.len() {
        Seq::empty()
    } else {
        bump(tally(keys, n - 1), keys[n - 1])
    }
}

/// Each key once.
pub open spec fn unique_keys<K>(cs: Seq<(K, nat)>) -> bool {
    forall|i: int, j: int| 0 <= i < j < cs.len() ==> cs[i].0 != cs[j].0
}

/// The endpoint of a span: its method and its route, or its path when it
/// has no route.
pub open spec fn endpoint_of(span: HttpSpan) -> (Seq<char>, Seq<char>) {
    (span.method@, match span.route {
        Some(r) => r@,
        None => span.path@,
    })
}

/// The endpoints of the spans.
pub open spec fn endpoint_keys(spans: Seq<HttpSpan>) -> Seq<(Seq<char>, Seq<char>)> {
    spans.map_values(|s: HttpSpan| endpoint_of(s))
}

/// The host and port of each of the first `n` spans that is outgoing.
pub open spec fn dependency_keys(spans: Seq<HttpSpan>, n: int) -> Seq<(Seq<char>, u16)>
    decreases n,
{
    if n <= 0 || n > spans.len() {
        Seq::empty()
    } else if spans[n - 1].direction == SpanDirection::Outgoing {
        dependency_keys(spans, n - 1).push((spans[n - 1].server_address@, spans[n - 1].server_port))
    } else {
        dependency_keys(spans, n - 1)
    }
}

/// Endpoint counts as plain values.
pub open spec fn endpoint_counts_view(v: Seq<(String, String, u64)>) -> Seq<((Seq<char>, Seq<char>), nat)> {
    v.map_values(|e: (String, String, u64)| ((e.0@, e.1@), e.2 as nat))
}

/// Dependency counts as plain values.
pub open spec fn dependency_counts_view(v: Seq<(String, u16, u64)>) -> Seq<((Seq<char>, u16), nat)> {
    v.map_values(|e: (String, u16, u64)| ((e.0@, e.1), e.2 as nat))
}

/// Every count of a tally is at most the number of keys counted.
proof fn lemma_tally_bounds<K>(keys: Seq<K>, n: int)
    requires
        0 <= n <= keys.len(),
    ensures
        unique_keys(tally(keys, n)),
        forall|i: int| 0 <= i < tally(keys, n).len() ==> (#[trigger] tally(keys, n)[i]).1 <= n,
    decreases n,
{
    if n > 0 {
        lemma_tally_bounds(keys, n - 1);
        let cs = tally(keys, n - 1);
        let k = keys[n - 1];
        if exists|i: int| 0 <= i < cs.len() && (#[trigger] cs[i]).0 == k {
            let i = choose|i: int| 0 <= i < cs.len() && (#[trigger] cs[i]).0 == k;
            assert(tally(keys, n) == cs.update(i, (k, cs[i].1 + 1)));
        } else {
            assert(tally(keys, n) == cs.push((k, 1nat)));
        }
    }
}

/// The sum of the counts.
pub open spec fn total<K>(cs: Seq<(K, nat)>) -> nat
    decreases cs.len(),
{
    if cs.len() == 0 {
        0
    } else {
        total(cs.drop_last()) + cs.last().1
    }
}

/// Raising one count raises the sum by one.
proof fn lemma_total_raise<K>(cs: Seq<(K, nat)>, i: int, k: K)
    requires
        0 <= i < cs.len(),
    ensures
        total(cs.update(i, (k, cs[i].1 + 1))) == total(cs) + 1,
    decreases cs.len(),
{
    let u = cs.update(i, (k, cs[i].1 + 1));
    if i == cs.len() - 1 {
        assert(u.drop_last() =~= cs.drop_last());
    } else {
        lemma_total_raise(cs.drop_last(), i, k);
        assert(u.drop_last() =~= cs.drop_last().update(i, (k, cs[i].1 + 1)));
    }
}

/// Each key counted is counted once: the counts of a tally add up to the
/// number of keys counted, and each key appears once.
pub proof fn law_tally_counts_every_key<K>(keys: Seq<K>, n: int)
    requires
        0 <= n <= keys.len(),
    ensures
        total(tally(keys, n)) == n,
        unique_keys(tally(keys, n)),
    decreases n,
{
    lemma_tally_bounds(keys, n);
    if n > 0 {
        law_tally_counts_every_key(keys, n - 1);
        let cs = tally(keys, n - 1);
        let k = keys[n - 1];
        if exists|i: int| 0 <= i < cs.len() && (#[trigger] cs[i]).0 == k {
            let i = choose|i: int| 0 <= i < cs.len() && (#[trigger] cs[i]).0 == k;
            lemma_total_raise(cs, i, k);
        } else {
            assert(cs.push((k, 1nat)).drop_last() =~= cs);
        }
    }
}

/// How often each endpoint occurs among the spans, endpoints in order of
/// first appearance.
pub fn endpoint_counts(spans: &[HttpSpan]) -> (r: Vec<(String, String, u64)>)
    ensures
        endpoint_counts_view(r@) == tally(endpoint_keys(spans@), spans@.len() as int),
{
    let ghost keys = endpoint_keys(spans@);
    let mut r: Vec<(String, String, u64)> = Vec::new();
    let mut k: usize = 0;
    assert(endpoint_counts_view(r@) =~= tally(keys, 0));
    while k < spans.len()
        invariant
            k <= spans@.len(),
            keys == endpoint_keys(spans@),
            endpoint_counts_view(r@) == tally(keys, k as int),
        decreases spans.len() - k,
    {
        proof { lemma_tally_bounds(keys, k as int); }
        let span = &spans[k];
        let path = match &span.route {
            Some(route) => route,
            None => &span.path,
        };
        let ghost key = keys[k as int];
        assert(key == (span.method@, path@));
        let ghost cs = endpoint_counts_view(r@);
        let mut i: usize = 0;
        while i < r.len() && !(str_eq(r[i].0.as_str(), span.method.as_str()) && str_eq(r[i].1.as_str(), path.as_str()))
            invariant
                i <= r@.len(),
                cs == endpoint_counts_view(r@),
                key == (span.method@, path@),
                forall|q: int| 0 <= q < i ==> (#[trigger] cs[q]).0 != key,
            decreases r.len() - i,
        {
            i = i + 1;
        }
        if i < r.len() {
            assert(cs[i as int].0 == key);
            assert(cs[i as int].1 <= k);
            let entry = (r[i].0.clone(), r[i].1.clone(), r[i].2 + 1);
            r.set(i, entry);
            proof {
                let j = choose|j: int| 0 <= j < cs.len() && (#[trigger] cs[j]).0 == key;
                assert(j == i);
            }
            assert(endpoint_counts_view(r@) =~= bump(cs, key));
        } else {
            r.push((span.method.clone(), path.clone(), 1));
            assert(endpoint_counts_view(r@) =~= bump(cs, key));
        }
        k = k + 1;
    }
    r
}

/// How often each dependency (host and port of an outgoing span) occurs,
/// dependencies in order of first appearance.
pub fn dependency_counts(spans: &[HttpSpan]) -> (r: Vec<(String, u16, u64)>)
    ensures
        dependency_counts_view(r@) == tally(dependency_keys(spans@, spans@.len() as int), dependency_keys(spans@, spans@.len() as int).len() as int),
{
    let mut r: Vec<(String, u16, u64)> = Vec::new();
    let mut k: usize = 0;
    assert(dependency_counts_view(r@) =~= tally(dependency_keys(spans@, 0), 0));
    while k < spans.len()
        invariant
            k <= spans@.len(),
            dependency_keys(spans@, k as int).len() <= k,
            dependency_counts_view(r@) == tally(dependency_keys(spans@, k as int), dependency_keys(spans@, k as int).len() as int),
        decreases spans.len() - k,
    {
        let ghost keys = dependency_keys(spans@, k as int);
        let span = &spans[k];
        if span.direction == SpanDirection::Outgoing {
            proof { lemma_tally_bounds(keys, keys.len() as int); }
            let ghost key = (span.server_address@, span.server_port);
            let ghost cs = dependency_counts_view(r@);
            let ghost next = keys.push(key);
            assert(next == dependency_keys(spans@, k + 1));
            assert(tally(next, keys.len() as int) == tally(keys, keys.len() as int)) by {
                lemma_tally_prefix(keys, key, keys.len() as int);
            }
            let mut i: usize = 0;
            while i < r.len() && !(str_eq(r[i].0.as_str(), span.server_address.as_str()) && r[i].1 == span.server_port)
                invariant
                    i <= r@.len(),
                    cs == dependency_counts_view(r@),
                    key == (span.server_address@, span.server_port),
                    forall|q: int| 0 <= q < i ==> (#[trigger] cs[q]).0 != key,
                decreases r.len() - i,
            {
                i = i + 1;
            }
            if i < r.len() {
                assert(cs[i as int].0 == key);
                assert(cs[i as int].1 <= k);
                let entry = (r[i].0.clone(), r[i].1, r[i].2 + 1);
                r.set(i, entry);
                proof {
                    let j = choose|j: int| 0 <= j < cs.len() && (#[trigger] cs[j]).0 == key;
                    assert(j == i);
                }
                assert(dependency_counts_view(r@) =~= bump(cs, key));
            } else {
                r.push((span.server_address.clone(), span.server_port, 1));
                assert(dependency_counts_view(r@) =~= bump(cs, key));
            }
        }
        k = k + 1;
    }
    r
}

/// Counting more keys does not change the count of a prefix.
proof fn lemma_tally_prefix<K>(keys: Seq<K>, k: K, n: int)
    requires
        0 <= n <= keys.len(),
    ensures
        tally(keys.push(k), n) == tally(keys, n),
    decreases n,
{
    if n > 0 {
        lemma_tally_prefix(keys, k, n - 1);
        assert(keys.push(k)[n - 1] == keys[n - 1]);
    }
}

/// The positions of a page of `limit` spans from position `offset` on,
/// among `len` spans: empty when the page starts past the end.
pub open spec fn page(len: nat, offset: u64, limit: u64) -> (int, int) {
    if offset < len {
        (offset as int, if offset + limit < len { offset + limit } else { len as int })
    } else {
        (0, 0)
    }
}

/// The positions of a page of spans.
pub fn page_bounds(len: usize, offset: u64, limit: u64) -> (r: (usize, usize))
    requires
        offset < len ==> offset + limit <= usize::MAX,
    ensures
        r.0 == page(len as nat, offset, limit).0,
        r.1 == page(len as nat, offset, limit).1,
{
    if (offset as u128) < (len as u128) {
        let start = offset as usize;
        let end = if (offset as u128) + (limit as u128) < (len as u128) { start + limit as usize } else { len };
        (start, end)
    } else {
        (0, 0)
    }
}

/// The positions of the spans of a trace, in order.
pub fn spans_of_trace(spans: &[HttpSpan], trace_id: &str) -> (r: Vec<usize>)
    ensures
        forall|i: int| 0 <= i < r@.len() ==> (#[trigger] r@[i]) < spans@.len() && spans@[r@[i] as int].trace_id@ == trace_id@,
        forall|i: int, j: int| 0 <= i < j < r@.len() ==> r@[i] < r@[j],
        forall|p: int| 0 <= p < spans@.len() && spans@[p].trace_id@ == trace_id@ ==> r@.contains(p as usize),
{
    let mut r: Vec<usize> = Vec::new();
    let mut k: usize = 0;
    while k < spans.len()
        invariant
            k <= spans@.len(),
            forall|i: int| 0 <= i < r@.len() ==> (#[trigger] r@[i]) < k && spans@[r@[i] as int].trace_id@ == trace_id@,
            forall|i: int, j: int| 0 <= i < j < r@.len() ==> r@[i] < r@[j],
            forall|p: int| 0 <= p < k && spans@[p].trace_id@ == trace_id@ ==> r@.contains(p as usize),
        decreases spans.len() - k,
    {
        if str_eq(spans[k].trace_id.as_str(), trace_id) {
            let ghost before = r@;
            r.push(k);
            assert forall|p: int| 0 <= p < k + 1 && spans@[p].trace_id@ == trace_id@ implies r@.contains(p as usize) by {
                if p < k {
                    let q = choose|q: int| 0 <= q < before.len() && before[q] == p as usize;
                    assert(r@[q] == p as usize);
                } else {
                    assert(r@[before.len() as int] == k);
                }
            }
        }
        k = k + 1;
    }
    r
}

} // verus!
