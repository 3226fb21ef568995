//! In-memory trace storage: sessions and their spans, each kept under its
//! session identifier.

use vstd::prelude::*;
use vstd::seq_lib::{to_multiset_build, to_multiset_insert};
use crate::error::HornetError;
use crate::text::str_eq;
use crate::tracer::store::{
    dependency_counts, dependency_counts_view, dependency_keys, endpoint_counts, endpoint_counts_view,
    endpoint_keys, page, page_bounds, tally,
};
use crate::tracer::types::{HttpSpan, TraceSession, TraceStatistics};

verus! {

// ---------------------------------------------------------------- keyed sequences

/// The position of the first key equal to `id`, from `from` on.
pub open spec fn key_index(keys: Seq<Seq<char>>, id: Seq<char>, from: int) -> Option<int>
    decreases keys.len() - from,
{
    if from < 0 || from >= keys.len() {
        None
    } else if keys[from] == id {
        Some(from)
    } else {
        key_index(keys, id, from + 1)
    }
}

/// Each key once.
pub open spec fn unique_keys(keys: Seq<Seq<char>>) -> bool {
    forall|i: int, j: int| 0 <= i < j < keys.len() ==> keys[i] != keys[j]
}

/// A position found by `key_index` holds the key, and no earlier one from
/// `from` on does; when none is found, no key from `from` on is `id`.
pub proof fn lemma_key_index(keys: Seq<Seq<char>>, id: Seq<char>, from: int)
    requires
        0 <= from,
    ensures
        key_index(keys, id, from) matches Some(i) ==> from <= i < keys.len() && keys[i] == id && forall|j: int|
            from <= j < i ==> keys[j] != id,
        key_index(keys, id, from) is None ==> forall|j: int| from <= j < keys.len() ==> keys[j] != id,
    decreases keys.len() - from,
{
    if from < keys.len() && keys[from] != id {
        lemma_key_index(keys, id, from + 1);
    }
}

/// The first position holding `id` is what `key_index` finds.
pub proof fn lemma_key_index_at(keys: Seq<Seq<char>>, id: Seq<char>, i: int, from: int)
    requires
        0 <= from <= i < keys.len(),
        keys[i] == id,
        forall|j: int| from <= j < i ==> keys[j] != id,
    ensures
        key_index(keys, id, from) == Some(i),
    decreases i - from,
{
    if from < i {
        lemma_key_index_at(keys, id, i, from + 1);
    }
}

/// Where no key is `id`, none is found.
pub proof fn lemma_key_index_absent(keys: Seq<Seq<char>>, id: Seq<char>, from: int)
    requires
        0 <= from,
        forall|j: int| from <= j < keys.len() ==> keys[j] != id,
    ensures
        key_index(keys, id, from) is None,
    decreases keys.len() - from,
{
    if from < keys.len() {
        lemma_key_index_absent(keys, id, from + 1);
    }
}

/// The identifiers of sessions.
pub open spec fn session_ids(v: Seq<TraceSession>) -> Seq<Seq<char>> {
    v.map_values(|s: TraceSession| s.id@)
}

/// The identifiers of span lists.
pub open spec fn list_ids(v: Seq<(Seq<char>, Seq<HttpSpan>)>) -> Seq<Seq<char>> {
    v.map_values(|p: (Seq<char>, Seq<HttpSpan>)| p.0)
}

/// The session stored under `id`.
pub open spec fn session_of(v: Seq<TraceSession>, id: Seq<char>) -> Option<TraceSession> {
    match key_index(session_ids(v), id, 0) {
        Some(i) => Some(v[i]),
        None => None,
    }
}

/// The spans stored under `id`.
pub open spec fn spans_under(v: Seq<(Seq<char>, Seq<HttpSpan>)>, id: Seq<char>) -> Option<Seq<HttpSpan>> {
    match key_index(list_ids(v), id, 0) {
        Some(i) => Some(v[i].1),
        None => None,
    }
}

/// The sessions with `s` stored under its identifier, in place of the one
/// there.
pub open spec fn put_session(v: Seq<TraceSession>, s: TraceSession) -> Seq<TraceSession> {
    match key_index(session_ids(v), s.id@, 0) {
        Some(i) => v.update(i, s),
        None => v.push(s),
    }
}

/// The span lists with `spans` stored under `id`, in place of the list there.
pub open spec fn put_list(v: Seq<(Seq<char>, Seq<HttpSpan>)>, id: Seq<char>, spans: Seq<HttpSpan>) -> Seq<(Seq<char>, Seq<HttpSpan>)> {
    match key_index(list_ids(v), id, 0) {
        Some(i) => v.update(i, (id, spans)),
        None => v.push((id, spans)),
    }
}

/// The span lists with `more` added at the end of the list under `id`, if
/// there is one.
pub open spec fn append_spans(v: Seq<(Seq<char>, Seq<HttpSpan>)>, id: Seq<char>, more: Seq<HttpSpan>) -> Seq<(Seq<char>, Seq<HttpSpan>)> {
    match key_index(list_ids(v), id, 0) {
        Some(i) => v.update(i, (id, v[i].1 + more)),
        None => v,
    }
}

/// The sessions without the one under `id`.
pub open spec fn drop_session(v: Seq<TraceSession>, id: Seq<char>) -> Seq<TraceSession> {
    match key_index(session_ids(v), id, 0) {
        Some(i) => v.remove(i),
        None => v,
    }
}

/// The span lists without the one under `id`.
pub open spec fn drop_list(v: Seq<(Seq<char>, Seq<HttpSpan>)>, id: Seq<char>) -> Seq<(Seq<char>, Seq<HttpSpan>)> {
    match key_index(list_ids(v), id, 0) {
        Some(i) => v.remove(i),
        None => v,
    }
}

/// The sessions with the statistics of the one under `id` replaced.
pub open spec fn restat(v: Seq<TraceSession>, id: Seq<char>, stats: TraceStatistics) -> Seq<TraceSession> {
    match key_index(session_ids(v), id, 0) {
        Some(i) => v.update(i, TraceSession { statistics: stats, ..v[i] }),
        None => v,
    }
}

/// Later sessions started no later than earlier ones.
pub open spec fn newest_first(v: Seq<TraceSession>) -> bool {
    forall|i: int, j: int| 0 <= i < j < v.len() ==> v[i].started_at >= v[j].started_at
}

/// The values behind references.
pub open spec fn deref_sessions(v: Seq<&TraceSession>) -> Seq<TraceSession> {
    v.map_values(|s: &TraceSession| *s)
}

/// The values behind references.
pub open spec fn deref_spans(v: Seq<&HttpSpan>) -> Seq<HttpSpan> {
    v.map_values(|s: &HttpSpan| *s)
}

/// The spans among the first `n` of `l` that belong to trace `trace_id`, in
/// order.
pub open spec fn trace_spans(l: Seq<HttpSpan>, trace_id: Seq<char>, n: int) -> Seq<HttpSpan>
    decreases n,
{
    if n <= 0 || n > l.len() {
        Seq::empty()
    } else if l[n - 1].trace_id@ == trace_id {
        trace_spans(l, trace_id, n - 1).push(l[n - 1])
    } else {
        trace_spans(l, trace_id, n - 1)
    }
}

/// Replacing an entry by one with the same key keeps the keys.
proof fn lemma_same_keys_session(v: Seq<TraceSession>, i: int, s: TraceSession)
    requires
        0 <= i < v.len(),
        v[i].id@ == s.id@,
    ensures
        session_ids(v.update(i, s)) == session_ids(v),
{
    assert(session_ids(v.update(i, s)) =~= session_ids(v));
}

/// Adding an absent key keeps the keys unique.
proof fn lemma_push_unique(keys: Seq<Seq<char>>, id: Seq<char>)
    requires
        unique_keys(keys),
        key_index(keys, id, 0) is None,
    ensures
        unique_keys(keys.push(id)),
{
    lemma_key_index(keys, id, 0);
}

/// Removing a key keeps the rest unique, and where keys are unique the
/// removed one is gone.
proof fn lemma_remove_unique(keys: Seq<Seq<char>>, i: int)
    requires
        unique_keys(keys),
        0 <= i < keys.len(),
    ensures
        unique_keys(keys.remove(i)),
        key_index(keys.remove(i), keys[i], 0) is None,
{
    let r = keys.remove(i);
    assert forall|a: int, b: int| 0 <= a < b < r.len() implies r[a] != r[b] by {
        let a2 = if a < i { a } else { a + 1 };
        let b2 = if b < i { b } else { b + 1 };
        assert(r[a] == keys[a2] && r[b] == keys[b2]);
    }
    assert forall|j: int| 0 <= j < r.len() implies r[j] != keys[i] by {
        let j2 = if j < i { j } else { j + 1 };
        assert(r[j] == keys[j2]);
    }
    lemma_key_index_absent(r, keys[i], 0);
}

// ---------------------------------------------------------------- laws

/// A key other than the one added is found where it was before.
proof fn lemma_key_index_push_other(keys: Seq<Seq<char>>, x: Seq<char>, k: Seq<char>)
    requires
        x != k,
    ensures
        key_index(keys.push(x), k, 0) == key_index(keys, k, 0),
{
    lemma_key_index(keys, k, 0);
    match key_index(keys, k, 0) {
        Some(j) => lemma_key_index_at(keys.push(x), k, j, 0),
        None => lemma_key_index_absent(keys.push(x), k, 0),
    }
}

/// A session just stored is the one found under its identifier.
pub proof fn law_stored_session_is_found(v: Seq<TraceSession>, s: TraceSession)
    ensures
        session_of(put_session(v, s), s.id@) == Some(s),
{
    let keys = session_ids(v);
    lemma_key_index(keys, s.id@, 0);
    match key_index(keys, s.id@, 0) {
        Some(i) => {
            lemma_same_keys_session(v, i, s);
        },
        None => {
            assert(session_ids(v.push(s)) =~= keys.push(s.id@));
            lemma_key_index_at(keys.push(s.id@), s.id@, keys.len() as int, 0);
        },
    }
}

/// Storing a session leaves what is found under any other identifier.
pub proof fn law_stored_session_keeps_others(v: Seq<TraceSession>, s: TraceSession, id: Seq<char>)
    requires
        id != s.id@,
    ensures
        session_of(put_session(v, s), id) == session_of(v, id),
{
    let keys = session_ids(v);
    lemma_key_index(keys, s.id@, 0);
    lemma_key_index(keys, id, 0);
    match key_index(keys, s.id@, 0) {
        Some(i) => {
            lemma_same_keys_session(v, i, s);
        },
        None => {
            assert(session_ids(v.push(s)) =~= keys.push(s.id@));
            lemma_key_index_push_other(keys, s.id@, id);
        },
    }
}

/// Once deleted, a session is not found, where each was stored once.
pub proof fn law_deleted_session_is_gone(v: Seq<TraceSession>, id: Seq<char>)
    requires
        unique_keys(session_ids(v)),
    ensures
        session_of(drop_session(v, id), id) is None,
{
    let keys = session_ids(v);
    lemma_key_index(keys, id, 0);
    if let Some(i) = key_index(keys, id, 0) {
        assert(session_ids(v.remove(i)) =~= keys.remove(i));
        lemma_remove_unique(keys, i);
    }
}

/// Once deleted, a session has no spans, where each list was stored once.
pub proof fn law_deleted_session_has_no_spans(v: Seq<(Seq<char>, Seq<HttpSpan>)>, id: Seq<char>)
    requires
        unique_keys(list_ids(v)),
    ensures
        spans_under(drop_list(v, id), id) is None,
{
    let keys = list_ids(v);
    lemma_key_index(keys, id, 0);
    if let Some(i) = key_index(keys, id, 0) {
        assert(list_ids(v.remove(i)) =~= keys.remove(i));
        lemma_remove_unique(keys, i);
    }
}

/// Removing an entry with another key moves the first `k` back by one
/// when it came after the removed entry.
proof fn lemma_key_index_remove_other(keys: Seq<Seq<char>>, i: int, k: Seq<char>)
    requires
        0 <= i < keys.len(),
        keys[i] != k,
    ensures
        key_index(keys.remove(i), k, 0) == match key_index(keys, k, 0) {
            Some(j) => Some(if j < i { j } else { j - 1 }),
            None => None,
        },
{
    let r = keys.remove(i);
    lemma_key_index(keys, k, 0);
    match key_index(keys, k, 0) {
        Some(j) => {
            let j2 = if j < i { j } else { j - 1 };
            assert(r[j2] == keys[j]);
            assert forall|x: int| 0 <= x < j2 implies r[x] != k by {
                let x2 = if x < i { x } else { x + 1 };
                assert(r[x] == keys[x2]);
            }
            lemma_key_index_at(r, k, j2, 0);
        },
        None => {
            assert forall|x: int| 0 <= x < r.len() implies r[x] != k by {
                let x2 = if x < i { x } else { x + 1 };
                assert(r[x] == keys[x2]);
            }
            lemma_key_index_absent(r, k, 0);
        },
    }
}

/// Deleting a session leaves what is found under any other identifier.
pub proof fn law_deleted_session_keeps_others(v: Seq<TraceSession>, id: Seq<char>, other: Seq<char>)
    requires
        other != id,
    ensures
        session_of(drop_session(v, id), other) == session_of(v, other),
{
    let keys = session_ids(v);
    lemma_key_index(keys, id, 0);
    lemma_key_index(keys, other, 0);
    if let Some(i) = key_index(keys, id, 0) {
        assert(session_ids(v.remove(i)) =~= keys.remove(i));
        lemma_key_index_remove_other(keys, i, other);
    }
}

/// Deleting a session leaves the spans under any other identifier.
pub proof fn law_deleted_session_keeps_other_spans(
    v: Seq<(Seq<char>, Seq<HttpSpan>)>,
    id: Seq<char>,
    other: Seq<char>,
)
    requires
        other != id,
    ensures
        spans_under(drop_list(v, id), other) == spans_under(v, other),
{
    let keys = list_ids(v);
    lemma_key_index(keys, id, 0);
    lemma_key_index(keys, other, 0);
    if let Some(i) = key_index(keys, id, 0) {
        assert(list_ids(v.remove(i)) =~= keys.remove(i));
        lemma_key_index_remove_other(keys, i, other);
    }
}

/// A list just stored under an identifier is the one found under it.
pub proof fn law_stored_list_is_found(v: Seq<(Seq<char>, Seq<HttpSpan>)>, id: Seq<char>, spans: Seq<HttpSpan>)
    ensures
        spans_under(put_list(v, id, spans), id) == Some(spans),
{
    let keys = list_ids(v);
    lemma_key_index(keys, id, 0);
    match key_index(keys, id, 0) {
        Some(i) => {
            assert(list_ids(v.update(i, (id, spans))) =~= keys);
        },
        None => {
            assert(list_ids(v.push((id, spans))) =~= keys.push(id));
            lemma_key_index_at(keys.push(id), id, keys.len() as int, 0);
        },
    }
}

/// Spans stored for a session come after the ones it had, in order; a
/// session without a list stays without one.
pub proof fn law_stored_spans_are_appended(v: Seq<(Seq<char>, Seq<HttpSpan>)>, id: Seq<char>, more: Seq<HttpSpan>)
    ensures
        spans_under(append_spans(v, id, more), id) == match spans_under(v, id) {
            Some(l) => Some(l + more),
            None => None,
        },
{
    let keys = list_ids(v);
    lemma_key_index(keys, id, 0);
    if let Some(i) = key_index(keys, id, 0) {
        assert(list_ids(v.update(i, (id, v[i].1 + more))) =~= keys);
    }
}

/// Replacing the statistics of a session changes its statistics and
/// nothing else of it.
pub proof fn law_statistics_are_replaced(v: Seq<TraceSession>, id: Seq<char>, stats: TraceStatistics)
    ensures
        session_of(restat(v, id, stats), id) == match session_of(v, id) {
            Some(s) => Some(TraceSession { statistics: stats, ..s }),
            None => None,
        },
{
    let keys = session_ids(v);
    lemma_key_index(keys, id, 0);
    if let Some(i) = key_index(keys, id, 0) {
        lemma_same_keys_session(v, i, TraceSession { statistics: stats, ..v[i] });
    }
}

// ---------------------------------------------------------------- the store

/// In-memory storage backend.
pub struct MemoryStore {
    sessions: Vec<TraceSession>,
    spans: Vec<(String, Vec<HttpSpan>)>,
}

impl MemoryStore {
    /// The stored sessions, in the order they were first stored.
    pub closed spec fn sessions(&self) -> Seq<TraceSession> {
        self.sessions@
    }

    /// The stored span lists, each under its session identifier.
    pub closed spec fn span_lists(&self) -> Seq<(Seq<char>, Seq<HttpSpan>)> {
        self.spans@.map_values(|p: (String, Vec<HttpSpan>)| (p.0@, p.1@))
    }

    /// Each session and each span list is stored once.
    pub open spec fn wf(&self) -> bool {
        &&& unique_keys(session_ids(self.sessions()))
        &&& unique_keys(list_ids(self.span_lists()))
    }

    /// Creates an empty store.
    pub fn new() -> (s: Self)
        ensures
            s.wf(),
            s.sessions() == Seq::<TraceSession>::empty(),
            s.span_lists() == Seq::<(Seq<char>, Seq<HttpSpan>)>::empty(),
    {
        let s = MemoryStore { sessions: Vec::new(), spans: Vec::new() };
        assert(s.span_lists() =~= Seq::<(Seq<char>, Seq<HttpSpan>)>::empty());
        s
    }

    /// The position of the session under `id`.
    fn session_position(&self, id: &str) -> (r: Option<usize>)
        ensures
            r matches Some(i) ==> key_index(session_ids(self.sessions()), id@, 0) == Some(i as int) && i
                < self.sessions().len() && self.sessions()[i as int].id@ == id@,
            r is None ==> key_index(session_ids(self.sessions()), id@, 0) is None,
    {
        let ghost keys = session_ids(self.sessions());
        let mut i: usize = 0;
        while i < self.sessions.len()
            invariant
                i <= self.sessions@.len(),
                keys == session_ids(self.sessions()),
                forall|j: int| 0 <= j < i ==> keys[j] != id@,
            decreases self.sessions.len() - i,
        {
            if str_eq(self.sessions[i].id.as_str(), id) {
                proof { lemma_key_index_at(keys, id@, i as int, 0); }
                return Some(i);
            }
            i = i + 1;
        }
        proof { lemma_key_index_absent(keys, id@, 0); }
        None
    }

    /// The position of the span list under `id`.
    fn list_position(&self, id: &str) -> (r: Option<usize>)
        ensures
            r matches Some(i) ==> key_index(list_ids(self.span_lists()), id@, 0) == Some(i as int) && i
                < self.span_lists().len() && self.span_lists()[i as int].0 == id@,
            r is None ==> key_index(list_ids(self.span_lists()), id@, 0) is None,
    {
        let ghost keys = list_ids(self.span_lists());
        let mut i: usize = 0;
        while i < self.spans.len()
            invariant
                i <= self.spans@.len(),
                keys == list_ids(self.span_lists()),
                forall|j: int| 0 <= j < i ==> keys[j] != id@,
            decreases self.spans.len() - i,
        {
            if str_eq(self.spans[i].0.as_str(), id) {
                proof { lemma_key_index_at(keys, id@, i as int, 0); }
                return Some(i);
            }
            i = i + 1;
        }
        proof { lemma_key_index_absent(keys, id@, 0); }
        None
    }

    /// Puts `spans` under `id`, in place of the list there.
    fn put_span_list(&mut self, id: String, spans: Vec<HttpSpan>)
        requires
            old(self).wf(),
        ensures
            final(self).wf(),
            final(self).sessions() == old(self).sessions(),
            final(self).span_lists() == put_list(old(self).span_lists(), id@, spans@),
    {
        let ghost keys = list_ids(self.span_lists());
        let ghost entry = (id@, spans@);
        match self.list_position(id.as_str()) {
            Some(i) => {
                proof { lemma_key_index(keys, id@, 0); }
                self.spans.set(i, (id, spans));
                assert(self.span_lists() =~= put_list(old(self).span_lists(), entry.0, entry.1));
                assert(list_ids(self.span_lists()) =~= keys);
            },
            None => {
                self.spans.push((id, spans));
                assert(self.span_lists() =~= put_list(old(self).span_lists(), entry.0, entry.1));
                assert(list_ids(self.span_lists()) =~= keys.push(entry.0));
                proof { lemma_push_unique(keys, entry.0); }
            },
        }
    }

    /// Stores `session` under its identifier, in place of the one there,
    /// with an empty list of spans.
    pub fn create_session(&mut self, session: TraceSession) -> (r: Result<(), HornetError>)
        requires
            old(self).wf(),
        ensures
            r is Ok,
            final(self).wf(),
            final(self).sessions() == put_session(old(self).sessions(), session),
            final(self).span_lists() == put_list(old(self).span_lists(), session.id@, Seq::empty()),
    {
        let id = session.id.clone();
        let _ = self.update_session(session);
        let empty: Vec<HttpSpan> = Vec::new();
        assert(empty@ =~= Seq::<HttpSpan>::empty());
        self.put_span_list(id, empty);
        Ok(())
    }

    /// The session under `session_id`.
    pub fn get_session(&self, session_id: &str) -> (r: Result<Option<&TraceSession>, HornetError>)
        ensures
            r matches Ok(found) && match found {
                Some(s) => session_of(self.sessions(), session_id@) == Some(*s),
                None => session_of(self.sessions(), session_id@) is None,
            },
    {
        match self.session_position(session_id) {
            Some(i) => Ok(Some(&self.sessions[i])),
            None => Ok(None),
        }
    }

    /// All sessions, the most recently started first.
    pub fn list_sessions(&self) -> (r: Result<Vec<&TraceSession>, HornetError>)
        ensures
            r matches Ok(list) && newest_first(deref_sessions(list@)) && deref_sessions(list@).to_multiset()
                == self.sessions().to_multiset(),
    {
        let ghost all = self.sessions();
        let mut list: Vec<&TraceSession> = Vec::new();
        let mut k: usize = 0;
        assert(all.subrange(0, 0) =~= Seq::<TraceSession>::empty());
        assert(deref_sessions(list@) =~= Seq::<TraceSession>::empty());
        while k < self.sessions.len()
            invariant
                k <= self.sessions@.len(),
                all == self.sessions(),
                newest_first(deref_sessions(list@)),
                deref_sessions(list@).to_multiset() == all.subrange(0, k as int).to_multiset(),
            decreases self.sessions.len() - k,
        {
            let s = &self.sessions[k];
            let ghost before = deref_sessions(list@);
            let mut p: usize = 0;
            while p < list.len() && list[p].started_at >= s.started_at
                invariant
                    p <= list@.len(),
                    before == deref_sessions(list@),
                    forall|q: int| 0 <= q < p ==> before[q].started_at >= s.started_at,
                decreases list.len() - p,
            {
                p = p + 1;
            }
            list.insert(p, s);
            proof {
                let after = deref_sessions(list@);
                assert(after =~= before.insert(p as int, *s));
                assert forall|a: int, b: int| 0 <= a < b < after.len() implies after[a].started_at
                    >= after[b].started_at by {
                    if b < p {
                    } else if b == p {
                    } else if a < p {
                        assert(after[b] == before[b - 1]);
                    } else if a == p {
                        assert(after[b] == before[b - 1]);
                        assert(before[p as int].started_at < s.started_at);
                    } else {
                    }
                }
                to_multiset_insert(before, p as int, *s);
                assert(all.subrange(0, k + 1) =~= all.subrange(0, k as int).push(all[k as int]));
                to_multiset_build(all.subrange(0, k as int), all[k as int]);
            }
            k = k + 1;
        }
        assert(all.subrange(0, k as int) =~= all);
        Ok(list)
    }

    /// Stores `session` under its identifier, in place of the one there; its
    /// spans stay.
    pub fn update_session(&mut self, session: TraceSession) -> (r: Result<(), HornetError>)
        requires
            old(self).wf(),
        ensures
            r is Ok,
            final(self).wf(),
            final(self).sessions() == put_session(old(self).sessions(), session),
            final(self).span_lists() == old(self).span_lists(),
    {
        let ghost keys = session_ids(self.sessions());
        let ghost s = session;
        match self.session_position(session.id.as_str()) {
            Some(i) => {
                proof {
                    lemma_key_index(keys, s.id@, 0);
                    lemma_same_keys_session(self.sessions(), i as int, s);
                }
                self.sessions.set(i, session);
            },
            None => {
                self.sessions.push(session);
                assert(session_ids(self.sessions()) =~= keys.push(s.id@));
                proof { lemma_push_unique(keys, s.id@); }
            },
        }
        Ok(())
    }

    /// Removes the session under `session_id` and its spans.
    pub fn delete_session(&mut self, session_id: &str) -> (r: Result<(), HornetError>)
        requires
            old(self).wf(),
        ensures
            r is Ok,
            final(self).wf(),
            final(self).sessions() == drop_session(old(self).sessions(), session_id@),
            final(self).span_lists() == drop_list(old(self).span_lists(), session_id@),
    {
        let ghost skeys = session_ids(self.sessions());
        if let Some(i) = self.session_position(session_id) {
            let ghost before = self.sessions();
            self.sessions.remove(i);
            proof {
                lemma_remove_unique(skeys, i as int);
                assert(session_ids(self.sessions()) =~= skeys.remove(i as int));
            }
        }
        let ghost lkeys = list_ids(self.span_lists());
        let ghost lists = self.span_lists();
        if let Some(j) = self.list_position(session_id) {
            self.spans.remove(j);
            proof {
                lemma_remove_unique(lkeys, j as int);
                assert(self.span_lists() =~= lists.remove(j as int));
                assert(list_ids(self.span_lists()) =~= lkeys.remove(j as int));
            }
        }
        Ok(())
    }

    /// Adds `span` at the end of the spans of session `session_id`, if it
    /// has a list.
    pub fn store_span(&mut self, session_id: &str, span: HttpSpan) -> (r: Result<(), HornetError>)
        requires
            old(self).wf(),
        ensures
            r is Ok,
            final(self).wf(),
            final(self).sessions() == old(self).sessions(),
            final(self).span_lists() == append_spans(old(self).span_lists(), session_id@, seq![span]),
    {
        let mut more: Vec<HttpSpan> = Vec::new();
        more.push(span);
        self.store_spans(session_id, more)
    }

    /// Adds `new_spans` at the end of the spans of session `session_id`, if
    /// it has a list.
    pub fn store_spans(&mut self, session_id: &str, new_spans: Vec<HttpSpan>) -> (r: Result<(), HornetError>)
        requires
            old(self).wf(),
        ensures
            r is Ok,
            final(self).wf(),
            final(self).sessions() == old(self).sessions(),
            final(self).span_lists() == append_spans(old(self).span_lists(), session_id@, new_spans@),
    {
        let ghost keys = list_ids(self.span_lists());
        let ghost lists = self.span_lists();
        let ghost more = new_spans@;
        if let Some(i) = self.list_position(session_id) {
            proof { lemma_key_index(keys, session_id@, 0); }
            let (key, mut list) = self.spans.remove(i);
            let mut rest = new_spans;
            list.append(&mut rest);
            self.spans.insert(i, (key, list));
            assert(self.span_lists() =~= lists.update(i as int, (session_id@, lists[i as int].1 + more)));
            assert(list_ids(self.span_lists()) =~= keys);
        }
        Ok(())
    }

    /// A page of the spans of session `session_id`: `limit` spans from
    /// position `offset` on; none when the session has no list or the page
    /// starts past its end.
    pub fn get_spans(&self, session_id: &str, offset: u64, limit: u64) -> (r: Result<Vec<&HttpSpan>, HornetError>)
        requires
            spans_under(self.span_lists(), session_id@) matches Some(l) ==> (offset < l.len() ==> offset + limit
                <= usize::MAX),
        ensures
            r matches Ok(found) && deref_spans(found@) == match spans_under(self.span_lists(), session_id@) {
                Some(l) => l.subrange(page(l.len(), offset, limit).0, page(l.len(), offset, limit).1),
                None => Seq::empty(),
            },
    {
        let ghost lists = self.span_lists();
        let mut found: Vec<&HttpSpan> = Vec::new();
        match self.list_position(session_id) {
            Some(i) => {
                let list = &self.spans[i].1;
                assert(list@ == lists[i as int].1);
                let (start, end) = page_bounds(list.len(), offset, limit);
                let mut k: usize = start;
                assert(list@.subrange(start as int, start as int) =~= Seq::<HttpSpan>::empty());
                assert(deref_spans(found@) =~= Seq::<HttpSpan>::empty());
                while k < end
                    invariant
                        start <= k <= end <= list@.len(),
                        deref_spans(found@) == list@.subrange(start as int, k as int),
                    decreases end - k,
                {
                    let ghost before = deref_spans(found@);
                    found.push(&list[k]);
                    assert(deref_spans(found@) =~= before.push(list@[k as int]));
                    assert(list@.subrange(start as int, k + 1) =~= list@.subrange(start as int, k as int).push(
                        list@[k as int],
                    ));
                    k = k + 1;
                }
            },
            None => {
                assert(deref_spans(found@) =~= Seq::<HttpSpan>::empty());
            },
        }
        Ok(found)
    }

    /// How many spans session `session_id` has; none when it has no list.
    pub fn get_span_count(&self, session_id: &str) -> (r: Result<u64, HornetError>)
        ensures
            r matches Ok(n) && n == match spans_under(self.span_lists(), session_id@) {
                Some(l) => l.len(),
                None => 0,
            },
    {
        let ghost lists = self.span_lists();
        match self.list_position(session_id) {
            Some(i) => {
                assert(self.spans@[i as int].1@ == lists[i as int].1);
                Ok(self.spans[i].1.len() as u64)
            },
            None => Ok(0),
        }
    }

    /// The spans of trace `trace_id` in session `session_id`, in order.
    pub fn get_spans_by_trace_id(&self, session_id: &str, trace_id: &str) -> (r: Result<Vec<&HttpSpan>, HornetError>)
        ensures
            r matches Ok(found) && deref_spans(found@) == match spans_under(self.span_lists(), session_id@) {
                Some(l) => trace_spans(l, trace_id@, l.len() as int),
                None => Seq::empty(),
            },
    {
        let ghost lists = self.span_lists();
        let mut found: Vec<&HttpSpan> = Vec::new();
        assert(deref_spans(found@) =~= Seq::<HttpSpan>::empty());
        if let Some(i) = self.list_position(session_id) {
            let list = &self.spans[i].1;
            assert(list@ == lists[i as int].1);
            let mut k: usize = 0;
            while k < list.len()
                invariant
                    k <= list@.len(),
                    deref_spans(found@) == trace_spans(list@, trace_id@, k as int),
                decreases list.len() - k,
            {
                if str_eq(list[k].trace_id.as_str(), trace_id) {
                    let ghost before = deref_spans(found@);
                    found.push(&list[k]);
                    assert(deref_spans(found@) =~= before.push(list@[k as int]));
                }
                k = k + 1;
            }
        }
        Ok(found)
    }

    /// How often each endpoint occurs among the spans of session
    /// `session_id`, in order of first appearance.
    pub fn get_endpoints(&self, session_id: &str) -> (r: Result<Vec<(String, String, u64)>, HornetError>)
        ensures
            r matches Ok(counts) && endpoint_counts_view(counts@) == match spans_under(self.span_lists(), session_id@) {
                Some(l) => tally(endpoint_keys(l), l.len() as int),
                None => Seq::empty(),
            },
    {
        let ghost lists = self.span_lists();
        match self.list_position(session_id) {
            Some(i) => {
                assert(self.spans@[i as int].1@ == lists[i as int].1);
                Ok(endpoint_counts(self.spans[i].1.as_slice()))
            },
            None => {
                let counts: Vec<(String, String, u64)> = Vec::new();
                assert(endpoint_counts_view(counts@) =~= Seq::empty());
                Ok(counts)
            },
        }
    }

    /// How often each dependency occurs among the spans of session
    /// `session_id`, in order of first appearance.
    pub fn get_dependencies(&self, session_id: &str) -> (r: Result<Vec<(String, u16, u64)>, HornetError>)
        ensures
            r matches Ok(counts) && dependency_counts_view(counts@) == match spans_under(self.span_lists(), session_id@) {
                Some(l) => tally(dependency_keys(l, l.len() as int), dependency_keys(l, l.len() as int).len() as int),
                None => Seq::empty(),
            },
    {
        let ghost lists = self.span_lists();
        match self.list_position(session_id) {
            Some(i) => {
                assert(self.spans@[i as int].1@ == lists[i as int].1);
                Ok(dependency_counts(self.spans[i].1.as_slice()))
            },
            None => {
                let counts: Vec<(String, u16, u64)> = Vec::new();
                assert(dependency_counts_view(counts@) =~= Seq::empty());
                Ok(counts)
            },
        }
    }

    /// Replaces the statistics of the session under `session_id`, if there
    /// is one.
    pub fn update_statistics(&mut self, session_id: &str, stats: TraceStatistics) -> (r: Result<(), HornetError>)
        requires
            old(self).wf(),
        ensures
            r is Ok,
            final(self).wf(),
            final(self).sessions() == restat(old(self).sessions(), session_id@, stats),
            final(self).span_lists() == old(self).span_lists(),
    {
        let ghost keys = session_ids(self.sessions());
        let ghost st = stats;
        if let Some(i) = self.session_position(session_id) {
            proof { lemma_key_index(keys, session_id@, 0); }
            let mut s = self.sessions.remove(i);
            let ghost old_s = s;
            s.statistics = stats;
            assert(s == TraceSession { statistics: st, ..old_s });
            self.sessions.insert(i, s);
            assert(self.sessions@ =~= old(self).sessions@.update(i as int, s));
            proof { lemma_same_keys_session(old(self).sessions(), i as int, s); }
        }
        Ok(())
    }
}

impl Default for MemoryStore {
    fn default() -> (s: Self)
        ensures
            s.wf(),
            s.sessions() == Seq::<TraceSession>::empty(),
            s.span_lists() == Seq::<(Seq<char>, Seq<HttpSpan>)>::empty(),
    {
        MemoryStore::new()
    }
}

} // verus!
