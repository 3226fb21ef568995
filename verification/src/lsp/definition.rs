//! Where the operation an Arazzo document names is defined in an OpenAPI
//! document's text.

use vstd::prelude::*;
use crate::lsp::document::{add32, bytes32, first_index, first_occurrence, identifier_index, lemma_trunc_add, line32, trunc32, IdentifierKind, PositionMap, Position, Range};
use crate::text::{chars_of, contains, lines_of, seq_contains, text_lines};
use crate::tracer::inference::schema_inferrer::utf8_len;

verus! {

/// The first line, from `from` on, naming an operation identifier and
/// holding `id`.
pub open spec fn declaring_line(ls: Seq<Seq<char>>, id: Seq<char>, from: int) -> Option<int>
    decreases ls.len() - from,
{
    if from < 0 || from >= ls.len() {
        None
    } else if seq_contains(ls[from], "operationId:"@) && seq_contains(ls[from], id) {
        Some(from)
    } else {
        declaring_line(ls, id, from + 1)
    }
}

/// The range of `id` on the first line declaring it: from its first
/// occurrence, as many bytes as it has, cut to 32 bits.
pub open spec fn definition_range(text: Seq<char>, id: Seq<char>) -> Option<Range> {
    let ls = text_lines(text);
    match declaring_line(ls, id, 0) {
        Some(l) => {
            let t = ls[l];
            let c = match first_index(t, id) {
                Some(i) => utf8_len(t.subrange(0, i)),
                None => 0,
            };
            Some(Range {
                start: Position { line: trunc32(l), character: trunc32(c) },
                end: Position { line: trunc32(l), character: trunc32(c + utf8_len(id)) },
            })
        },
        None => None,
    }
}

/// The range of an operation identifier in an OpenAPI document's text.
pub fn find_operation_id_in_text(text: &str, operation_id: &str) -> (r: Option<Range>)
    ensures
        r == definition_range(text@, operation_id@),
{
    let lines = lines_of(text);
    let ghost ls = text_lines(text@);
    let key = chars_of("operationId:");
    let id = chars_of(operation_id);
    proof { reveal_strlit("operationId:"); }
    let mut l: usize = 0;
    while l < lines.len()
        invariant
            l <= lines@.len(),
            crate::text::views_of(lines@) == ls,
            ls == text_lines(text@),
            key@ == "operationId:"@,
            id@ == operation_id@,
            declaring_line(ls, operation_id@, 0) == declaring_line(ls, operation_id@, l as int),
        decreases lines.len() - l,
    {
        let t = chars_of(lines[l].as_str());
        assert(t@ == ls[l as int]);
        if contains(t.as_slice(), key.as_slice()) && contains(t.as_slice(), id.as_slice()) {
            let ghost c: int = match first_index(t@, id@) {
                Some(i) => utf8_len(t@.subrange(0, i)),
                None => 0,
            };
            let col = match first_occurrence(t.as_slice(), id.as_slice()) {
                Some(i) => bytes32(t.as_slice(), i),
                None => 0,
            };
            assert(col == trunc32(c));
            let len = bytes32(id.as_slice(), id.len());
            assert(id@.subrange(0, id@.len() as int) =~= id@);
            let end = add32(col, len);
            proof {
                crate::tracer::inference::schema_inferrer::lemma_utf8_len_nonneg(id@);
                if let Some(i) = first_index(t@, id@) {
                    crate::tracer::inference::schema_inferrer::lemma_utf8_len_nonneg(t@.subrange(0, i));
                }
                lemma_trunc_add(c, utf8_len(id@));
                lemma_trunc_add(utf8_len(id@), trunc32(c) as int);
            }
            let line = line32(l);
            assert(declaring_line(ls, operation_id@, l as int) == Some(l as int));
            assert(end == trunc32(c + utf8_len(operation_id@)));
            return Some(Range { start: Position { line, character: col }, end: Position { line, character: end } });
        }
        l = l + 1;
    }
    None
}

} // verus!

verus! {

/// Where the operation named at a position is defined in the text of the
/// project's OpenAPI document: nothing unless an operation identifier
/// stands there and the text is at hand.
pub fn provide_definition(map: &PositionMap, position: Position, openapi_text: Option<&str>) -> (r: Option<Range>)
    ensures
        match identifier_index(map.identifiers@, position, 0) {
            Some(i) => match (map.identifiers@[i].kind, openapi_text) {
                (IdentifierKind::OperationId(op), Some(t)) => r == definition_range(t@, op@),
                _ => r is None,
            },
            None => r is None,
        },
{
    match map.find_identifier_at(position) {
        Some(info) => match (&info.kind, openapi_text) {
            (IdentifierKind::OperationId(op), Some(t)) => find_operation_id_in_text(t, op.as_str()),
            _ => None,
        },
        None => None,
    }
}

} // verus!
