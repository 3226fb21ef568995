//! Where the identifiers of an Arazzo document stand: workflow, step and
//! operation identifiers by line and byte column, and what a completion at
//! a position is for.

use vstd::prelude::*;
use crate::text::{chars_of, find, first_capture, lines_of, occurs_at, opt_view, regex_capture, seq_contains, str_eq, text_lines, views_of};
use crate::tracer::inference::schema_inferrer::utf8_len;

verus! {

/// A position: line and byte column, both from 0.
#[derive(Debug, Clone, Copy, PartialEq, Eq, Structural)]
pub struct Position {
    pub line: u32,
    pub character: u32,
}

/// A range of positions, both ends included.
#[derive(Debug, Clone, Copy, PartialEq, Eq, Structural)]
pub struct Range {
    pub start: Position,
    pub end: Position,
}

/// The kind of an identifier, with the identifier.
pub enum IdentifierKind {
    WorkflowId(String),
    StepId(String),
    OperationId(String),
}

/// An identifier and where it stands.
pub struct IdentifierInfo {
    pub range: Range,
    pub kind: IdentifierKind,
}

/// What a completion is for.
#[derive(Debug, Clone, Copy, PartialEq, Eq, Structural)]
pub enum CompletionContext {
    OperationId,
    OperationPath,
}

/// The identifiers of a document and where they stand.
pub struct PositionMap {
    /// Workflow identifiers, each once.
    pub workflows: Vec<(String, Range)>,
    /// Step identifiers qualified as `workflow.step`, each once.
    pub steps: Vec<(String, Range)>,
    /// Operation identifiers qualified as `workflow.step.operation`, each once.
    pub operation_ids: Vec<(String, Range)>,
    /// Every identifier, in document order.
    pub identifiers: Vec<IdentifierInfo>,
}

/// The line that declares a workflow identifier.
pub const WORKFLOW_PATTERN: &'static str = "^\\s*workflowId:\\s*([a-zA-Z0-9_-]+)";
/// The line that declares a step identifier.
pub const STEP_PATTERN: &'static str = "^\\s*-\\s*stepId:\\s*([a-zA-Z0-9_-]+)";
/// The line that names an operation identifier.
pub const OPERATION_PATTERN: &'static str = "^\\s*operationId:\\s*([a-zA-Z0-9_-]+)";

// ---------------------------------------------------------------- positions

/// A number cut to 32 bits, as a 32-bit sum that wraps around.
pub open spec fn trunc32(x: int) -> u32 {
    (x % 4294967296) as u32
}

/// Cutting to 32 bits before adding does not change the sum cut to 32 bits.
pub(crate) proof fn lemma_trunc_add(x: int, y: int)
    requires
        x >= 0,
        y >= 0,
    ensures
        trunc32(trunc32(x) + y) == trunc32(x + y),
{
    let m: int = 4294967296;
    vstd::arithmetic::div_mod::lemma_add_mod_noop(x, y, m);
    vstd::arithmetic::div_mod::lemma_add_mod_noop(x % m, y, m);
    vstd::arithmetic::div_mod::lemma_mod_twice(x, m);
    assert(0 <= x % m < m) by {
        vstd::arithmetic::div_mod::lemma_mod_bound(x, m);
    }
}

/// `a + b`, wrapping around at 32 bits.
pub(crate) fn add32(a: u32, b: u32) -> (r: u32)
    ensures
        r == trunc32(a + b),
{
    ((a as u64 + b as u64) % 4294967296u64) as u32
}

/// A count cut to 32 bits.
pub(crate) fn line32(l: usize) -> (r: u32)
    ensures
        r == trunc32(l as int),
{
    ((l as u64) % 4294967296u64) as u32
}

/// The number of UTF-8 bytes of the first `i` characters, cut to 32 bits.
pub(crate) fn bytes32(s: &[char], i: usize) -> (r: u32)
    requires
        i <= s@.len(),
    ensures
        r == trunc32(utf8_len(s@.subrange(0, i as int))),
{
    let mut acc: u32 = 0;
    let mut k: usize = 0;
    assert(s@.subrange(0, 0) =~= Seq::<char>::empty());
    while k < i
        invariant
            k <= i <= s@.len(),
            acc == trunc32(utf8_len(s@.subrange(0, k as int))),
        decreases i - k,
    {
        let ch = s[k] as u32;
        let w: u32 = if ch < 0x80 { 1 } else if ch < 0x800 { 2 } else if ch < 0x10000 { 3 } else { 4 };
        assert(s@.subrange(0, k + 1).drop_last() =~= s@.subrange(0, k as int));
        proof {
            crate::tracer::inference::schema_inferrer::lemma_utf8_len_nonneg(s@.subrange(0, k as int));
            lemma_trunc_add(utf8_len(s@.subrange(0, k as int)), w as int);
        }
        acc = add32(acc, w);
        k = k + 1;
    }
    acc
}

/// `p` first occurs in `t` at `i`.
pub open spec fn found_at(t: Seq<char>, p: Seq<char>, i: int) -> bool {
    occurs_at(t, p, i) && forall|j: int| 0 <= j < i ==> !occurs_at(t, p, j)
}

/// Where `p` first occurs in `t`, by character.
pub open spec fn first_index(t: Seq<char>, p: Seq<char>) -> Option<int> {
    if exists|i: int| found_at(t, p, i) {
        Some(choose|i: int| found_at(t, p, i))
    } else {
        None
    }
}

/// The range of an identifier `id` named after the key of `key_len` bytes
/// at character `col` of line `line`: from the key's first byte to the
/// identifier's end, byte counts cut to 32 bits.
pub open spec fn ident_range(line: int, t: Seq<char>, col: int, key_len: int, id: Seq<char>) -> Range {
    let c = utf8_len(t.subrange(0, col));
    Range {
        start: Position { line: trunc32(line), character: trunc32(c) },
        end: Position { line: trunc32(line), character: trunc32(c + key_len + utf8_len(id)) },
    }
}

// ---------------------------------------------------------------- the scan

/// The position of the entry named `k`, from `from` on.
pub open spec fn range_index(m: Seq<(Seq<char>, Range)>, k: Seq<char>, from: int) -> Option<int>
    decreases m.len() - from,
{
    if from < 0 || from >= m.len() {
        None
    } else if m[from].0 == k {
        Some(from)
    } else {
        range_index(m, k, from + 1)
    }
}

/// The entries with `k` set to `r`: replaced where present, else added.
pub open spec fn range_insert(m: Seq<(Seq<char>, Range)>, k: Seq<char>, r: Range) -> Seq<(Seq<char>, Range)> {
    match range_index(m, k, 0) {
        Some(i) => m.update(i, (k, r)),
        None => m.push((k, r)),
    }
}

/// The state of a scan: the three maps, the identifiers as range, kind
/// (0 workflow, 1 step, 2 operation) and text, and the current workflow
/// and step.
pub type ScanState = (
    Seq<(Seq<char>, Range)>,
    Seq<(Seq<char>, Range)>,
    Seq<(Seq<char>, Range)>,
    Seq<(Range, int, Seq<char>)>,
    Option<Seq<char>>,
    Option<Seq<char>>,
);

/// A line declaring a workflow identifier makes it current.
pub open spec fn scan_workflow(st: ScanState, l: int, t: Seq<char>) -> ScanState {
    match (regex_capture(WORKFLOW_PATTERN@, t), first_index(t, "workflowId:"@)) {
        (Some(id), Some(c)) => {
            let r = ident_range(l, t, c, 11, id);
            (range_insert(st.0, id, r), st.1, st.2, st.3.push((r, 0, id)), Some(id), None)
        },
        _ => st,
    }
}

/// A line declaring a step identifier makes it current.
pub open spec fn scan_step(st: ScanState, l: int, t: Seq<char>) -> ScanState {
    match (regex_capture(STEP_PATTERN@, t), first_index(t, "stepId:"@)) {
        (Some(id), Some(c)) => {
            let r = ident_range(l, t, c, 7, id);
            let steps = match st.4 {
                Some(wf) => range_insert(st.1, wf + "."@ + id, r),
                None => st.1,
            };
            (st.0, steps, st.2, st.3.push((r, 1, id)), st.4, Some(id))
        },
        _ => st,
    }
}

/// A line naming an operation identifier.
pub open spec fn scan_operation(st: ScanState, l: int, t: Seq<char>) -> ScanState {
    match (regex_capture(OPERATION_PATTERN@, t), first_index(t, "operationId:"@)) {
        (Some(id), Some(c)) => {
            let r = ident_range(l, t, c, 12, id);
            let ops = match (st.4, st.5) {
                (Some(wf), Some(sid)) => range_insert(st.2, wf + "."@ + sid + "."@ + id, r),
                _ => st.2,
            };
            (st.0, st.1, ops, st.3.push((r, 2, id)), st.4, st.5)
        },
        _ => st,
    }
}

/// The scan of the first `n` lines.
pub open spec fn scan_document(ls: Seq<Seq<char>>, n: int) -> ScanState
    decreases n,
{
    if n <= 0 || n > ls.len() {
        (Seq::empty(), Seq::empty(), Seq::empty(), Seq::empty(), None, None)
    } else {
        let st = scan_document(ls, n - 1);
        scan_operation(scan_step(scan_workflow(st, n - 1, ls[n - 1]), n - 1, ls[n - 1]), n - 1, ls[n - 1])
    }
}

/// Map entries as plain values.
pub open spec fn ranges_view(m: Seq<(String, Range)>) -> Seq<(Seq<char>, Range)> {
    m.map_values(|e: (String, Range)| (e.0@, e.1))
}

/// An identifier as plain values.
pub open spec fn ident_view(i: IdentifierInfo) -> (Range, int, Seq<char>) {
    match i.kind {
        IdentifierKind::WorkflowId(s) => (i.range, 0, s@),
        IdentifierKind::StepId(s) => (i.range, 1, s@),
        IdentifierKind::OperationId(s) => (i.range, 2, s@),
    }
}

/// Identifiers as plain values.
pub open spec fn idents_view(v: Seq<IdentifierInfo>) -> Seq<(Range, int, Seq<char>)> {
    v.map_values(|i: IdentifierInfo| ident_view(i))
}

/// The map holds what the scan of the lines found.
pub open spec fn map_of_scan(m: PositionMap, st: ScanState) -> bool {
    &&& ranges_view(m.workflows@) == st.0
    &&& ranges_view(m.steps@) == st.1
    &&& ranges_view(m.operation_ids@) == st.2
    &&& idents_view(m.identifiers@) == st.3
}


// ---------------------------------------------------------------- building the map

/// Where `p` first occurs in `t`.
pub(crate) fn first_occurrence(t: &[char], p: &[char]) -> (r: Option<usize>)
    ensures
        match r {
            Some(i) => first_index(t@, p@) == Some(i as int) && i <= t@.len(),
            None => first_index(t@, p@) is None,
        },
{
    match find(t, p) {
        Some(i) => {
            assert(found_at(t@, p@, i as int));
            proof {
                let j = choose|j: int| found_at(t@, p@, j);
                if j < i {
                    assert(!occurs_at(t@, p@, j));
                } else if j > i {
                    assert(!occurs_at(t@, p@, i as int));
                }
            }
            Some(i)
        },
        None => {
            assert forall|i: int| !found_at(t@, p@, i) by {
                if found_at(t@, p@, i) {
                    assert(seq_contains(t@, p@));
                }
            }
            None
        },
    }
}

/// The range of an identifier (see `ident_range`).
fn ident_range_at(line: u32, t: &[char], col: usize, key_len: u32, id: &[char]) -> (r: Range)
    requires
        col <= t@.len(),
    ensures
        r.start.line == line,
        r.end.line == line,
        r.start.character == trunc32(utf8_len(t@.subrange(0, col as int))),
        r.end.character == trunc32(utf8_len(t@.subrange(0, col as int)) + key_len + utf8_len(id@)),
{
    let cb = bytes32(t, col);
    let ib = bytes32(id, id.len());
    assert(id@.subrange(0, id@.len() as int) =~= id@);
    let e = add32(add32(cb, key_len), ib);
    proof {
        let c = utf8_len(t@.subrange(0, col as int));
        let d = utf8_len(id@);
        crate::tracer::inference::schema_inferrer::lemma_utf8_len_nonneg(t@.subrange(0, col as int));
        crate::tracer::inference::schema_inferrer::lemma_utf8_len_nonneg(id@);
        lemma_trunc_add(c, key_len as int);
        lemma_trunc_add(d, trunc32(c + key_len) as int);
        lemma_trunc_add(c + key_len, d);
    }
    Range { start: Position { line, character: cb }, end: Position { line, character: e } }
}

/// The position of the entry named `k`.
fn find_range(m: &Vec<(String, Range)>, k: &str) -> (r: Option<usize>)
    ensures
        match r {
            Some(i) => range_index(ranges_view(m@), k@, 0) == Some(i as int) && i < m@.len(),
            None => range_index(ranges_view(m@), k@, 0) is None,
        },
{
    let ghost mv = ranges_view(m@);
    let mut i: usize = 0;
    while i < m.len()
        invariant
            i <= m@.len(),
            mv == ranges_view(m@),
            mv.len() == m@.len(),
            range_index(mv, k@, 0) == range_index(mv, k@, i as int),
        decreases m.len() - i,
    {
        if str_eq(m[i].0.as_str(), k) {
            return Some(i);
        }
        i = i + 1;
    }
    None
}

/// Sets the entry named `k` to `r`.
fn insert_range(m: &mut Vec<(String, Range)>, k: String, r: Range)
    ensures
        ranges_view(final(m)@) == range_insert(ranges_view(old(m)@), k@, r),
{
    let ghost before = m@;
    match find_range(m, k.as_str()) {
        Some(i) => {
            let ghost kv = (k@, r);
            m.set(i, (k, r));
            assert(ranges_view(m@) =~= ranges_view(before).update(i as int, kv));
        },
        None => {
            let ghost kv = (k@, r);
            m.push((k, r));
            assert(ranges_view(m@) =~= ranges_view(before).push(kv));
        },
    }
}

/// `a.b`.
fn dotted(a: &str, b: &str) -> (r: String)
    ensures
        r@ == a@ + "."@ + b@,
{
    let mut r = crate::text::owned(a);
    r.append(".");
    r.append(b);
    r
}

impl PositionMap {
    /// Finds the identifiers of a document, line by line: a workflow
    /// identifier becomes the current workflow, a step identifier the
    /// current step, and an operation identifier is recorded under both.
    pub fn build(content: &str) -> (m: Self)
        ensures
            map_of_scan(m, scan_document(text_lines(content@), text_lines(content@).len() as int)),
    {
        let lines = lines_of(content);
        let ghost ls = text_lines(content@);
        let mut m = PositionMap { workflows: Vec::new(), steps: Vec::new(), operation_ids: Vec::new(), identifiers: Vec::new() };
        let mut cur_wf: Option<String> = None;
        let mut cur_step: Option<String> = None;
        let wf_key = chars_of("workflowId:");
        let step_key = chars_of("stepId:");
        let op_key = chars_of("operationId:");
        assert(ranges_view(m.workflows@) =~= Seq::<(Seq<char>, Range)>::empty());
        assert(ranges_view(m.steps@) =~= Seq::<(Seq<char>, Range)>::empty());
        assert(ranges_view(m.operation_ids@) =~= Seq::<(Seq<char>, Range)>::empty());
        assert(idents_view(m.identifiers@) =~= Seq::<(Range, int, Seq<char>)>::empty());
        let mut line_no: u32 = 0;
        let mut k: usize = 0;
        while k < lines.len()
            invariant
                k <= lines@.len(),
                views_of(lines@) == ls,
                wf_key@ == "workflowId:"@,
                step_key@ == "stepId:"@,
                op_key@ == "operationId:"@,
                line_no == trunc32(k as int),
                map_of_scan(m, scan_document(ls, k as int)),
                opt_view(cur_wf) == scan_document(ls, k as int).4,
                opt_view(cur_step) == scan_document(ls, k as int).5,
            decreases lines.len() - k,
        {
            let t = chars_of(lines[k].as_str());
            assert(t@ == ls[k as int]);
            let ghost st0 = scan_document(ls, k as int);
            // workflow identifiers
            proof { reveal_strlit("workflowId:"); }
            match (first_capture(WORKFLOW_PATTERN, lines[k].as_str()), first_occurrence(t.as_slice(), wf_key.as_slice())) {
                (Some(id), Some(c)) => {
                    let idc = chars_of(id.as_str());
                    let r = ident_range_at(line_no, t.as_slice(), c, 11, idc.as_slice());
                    insert_range(&mut m.workflows, id.clone(), r);
                    let ghost before = m.identifiers@;
                    let info = IdentifierInfo { range: r, kind: IdentifierKind::WorkflowId(id.clone()) };
                    m.identifiers.push(info);
                    assert(idents_view(m.identifiers@) =~= idents_view(before).push((r, 0, id@)));
                    cur_wf = Some(id);
                    cur_step = None;
                },
                _ => {},
            }
            let ghost st1 = scan_workflow(st0, k as int, ls[k as int]);
            assert(map_of_scan(m, st1) && opt_view(cur_wf) == st1.4 && opt_view(cur_step) == st1.5);
            // step identifiers
            proof { reveal_strlit("stepId:"); }
            match (first_capture(STEP_PATTERN, lines[k].as_str()), first_occurrence(t.as_slice(), step_key.as_slice())) {
                (Some(id), Some(c)) => {
                    let idc = chars_of(id.as_str());
                    let r = ident_range_at(line_no, t.as_slice(), c, 7, idc.as_slice());
                    match &cur_wf {
                        Some(wf) => {
                            insert_range(&mut m.steps, dotted(wf.as_str(), id.as_str()), r);
                        },
                        None => {},
                    }
                    let ghost before = m.identifiers@;
                    let info = IdentifierInfo { range: r, kind: IdentifierKind::StepId(id.clone()) };
                    m.identifiers.push(info);
                    assert(idents_view(m.identifiers@) =~= idents_view(before).push((r, 1, id@)));
                    cur_step = Some(id);
                },
                _ => {},
            }
            let ghost st2 = scan_step(st1, k as int, ls[k as int]);
            assert(map_of_scan(m, st2) && opt_view(cur_wf) == st2.4 && opt_view(cur_step) == st2.5);
            // operation identifiers
            proof { reveal_strlit("operationId:"); }
            match (first_capture(OPERATION_PATTERN, lines[k].as_str()), first_occurrence(t.as_slice(), op_key.as_slice())) {
                (Some(id), Some(c)) => {
                    let idc = chars_of(id.as_str());
                    let r = ident_range_at(line_no, t.as_slice(), c, 12, idc.as_slice());
                    match (&cur_wf, &cur_step) {
                        (Some(wf), Some(sid)) => {
                            let q = dotted(dotted(wf.as_str(), sid.as_str()).as_str(), id.as_str());
                            insert_range(&mut m.operation_ids, q, r);
                        },
                        _ => {},
                    }
                    let ghost before = m.identifiers@;
                    let info = IdentifierInfo { range: r, kind: IdentifierKind::OperationId(id) };
                    m.identifiers.push(info);
                    assert(idents_view(m.identifiers@) =~= idents_view(before).push((r, 2, ident_view(info).2)));
                },
                _ => {},
            }
            proof {
                lemma_trunc_add(k as int, 1);
            }
            line_no = add32(line_no, 1);
            k = k + 1;
        }
        m
    }
}


// ---------------------------------------------------------------- queries

/// The range holds the position: at or after its start and at or before
/// its end, line first, then column.
pub open spec fn range_contains(r: Range, p: Position) -> bool {
    &&& (p.line > r.start.line || (p.line == r.start.line && p.character >= r.start.character))
    &&& (p.line < r.end.line || (p.line == r.end.line && p.character <= r.end.character))
}

/// The first identifier, from `from` on, whose range holds the position.
pub open spec fn identifier_index(ids: Seq<IdentifierInfo>, p: Position, from: int) -> Option<int>
    decreases ids.len() - from,
{
    if from < 0 || from >= ids.len() {
        None
    } else if range_contains(ids[from].range, p) {
        Some(from)
    } else {
        identifier_index(ids, p, from + 1)
    }
}

/// The range under `k`, when there is one.
pub open spec fn range_of(m: Seq<(Seq<char>, Range)>, k: Seq<char>) -> Option<Range> {
    match range_index(m, k, 0) {
        Some(i) => Some(m[i].1),
        None => None,
    }
}

/// What a completion on a line is for: an operation identifier on a line
/// naming one, else an operation path on a line naming one.
pub open spec fn completion_context_of(lines: Seq<Seq<char>>, line: u32) -> Option<CompletionContext> {
    if line >= lines.len() {
        None
    } else if seq_contains(lines[line as int], "operationId:"@) {
        Some(CompletionContext::OperationId)
    } else if seq_contains(lines[line as int], "operationPath:"@) {
        Some(CompletionContext::OperationPath)
    } else {
        None
    }
}

impl PositionMap {
    /// Whether the range holds the position.
    pub fn contains_position(range: Range, position: Position) -> (r: bool)
        ensures
            r == range_contains(range, position),
    {
        let start_match = position.line > range.start.line || (position.line == range.start.line
            && position.character >= range.start.character);
        let end_match = position.line < range.end.line || (position.line == range.end.line && position.character
            <= range.end.character);
        start_match && end_match
    }

    /// The range of a workflow identifier.
    pub fn get_workflow_range(&self, workflow_id: &str) -> (r: Option<Range>)
        ensures
            r == range_of(ranges_view(self.workflows@), workflow_id@),
    {
        match find_range(&self.workflows, workflow_id) {
            Some(i) => Some(self.workflows[i].1),
            None => None,
        }
    }

    /// The range of a step identifier of a workflow.
    pub fn get_step_range(&self, workflow_id: &str, step_id: &str) -> (r: Option<Range>)
        ensures
            r == range_of(ranges_view(self.steps@), workflow_id@ + "."@ + step_id@),
    {
        let q = dotted(workflow_id, step_id);
        match find_range(&self.steps, q.as_str()) {
            Some(i) => Some(self.steps[i].1),
            None => None,
        }
    }

    /// The first identifier whose range holds the position.
    pub fn find_identifier_at(&self, position: Position) -> (r: Option<&IdentifierInfo>)
        ensures
            match r {
                Some(info) => identifier_index(self.identifiers@, position, 0) matches Some(i) && *info == self.identifiers@[i],
                None => identifier_index(self.identifiers@, position, 0) is None,
            },
    {
        let mut i: usize = 0;
        while i < self.identifiers.len()
            invariant
                i <= self.identifiers@.len(),
                identifier_index(self.identifiers@, position, 0) == identifier_index(self.identifiers@, position, i as int),
            decreases self.identifiers.len() - i,
        {
            if Self::contains_position(self.identifiers[i].range, position) {
                return Some(&self.identifiers[i]);
            }
            i = i + 1;
        }
        None
    }

    /// What a completion at the position is for.
    pub fn get_completion_context(&self, position: Position, content: &str) -> (r: Option<CompletionContext>)
        ensures
            r == completion_context_of(text_lines(content@), position.line),
    {
        let lines = lines_of(content);
        let n = position.line as usize;
        if n >= lines.len() {
            return None;
        }
        let t = chars_of(lines[n].as_str());
        assert(t@ == text_lines(content@)[n as int]);
        let a = chars_of("operationId:");
        let b = chars_of("operationPath:");
        if crate::text::contains(t.as_slice(), a.as_slice()) {
            return Some(CompletionContext::OperationId);
        }
        if crate::text::contains(t.as_slice(), b.as_slice()) {
            return Some(CompletionContext::OperationPath);
        }
        None
    }
}

} // verus!
