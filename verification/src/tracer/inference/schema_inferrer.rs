//! Inference of JSON Schemas from observed JSON values.
//!
//! Schemas are JSON objects whose members are kept sorted by name, each
//! name once, as a JSON map keeps them.

use vstd::prelude::*;
use crate::json::{lemma_view_members_len, json_depth, lemma_member_depth, lemma_member_index, lemma_members_depth, lemma_view_items_len, lemma_view_items_map, lemma_view_members_map, member_value, members_depth, view_items, view_json, view_members, Json, JsonValue};
use crate::text::{seq_starts_with};

verus! {

// ---------------------------------------------------------------- ordered maps

/// `a` comes before `b` in code-point order.
pub open spec fn seq_lt(a: Seq<char>, b: Seq<char>) -> bool
    decreases a.len(),
{
    if a.len() == 0 {
        b.len() > 0
    } else if b.len() == 0 {
        false
    } else if a[0] != b[0] {
        (a[0] as u32) < (b[0] as u32)
    } else {
        seq_lt(a.drop_first(), b.drop_first())
    }
}

/// The members with `k` set to `v`, kept in name order: the member named
/// `k` replaced, or a new member placed after every smaller name.
pub open spec fn map_insert(ms: Seq<(Seq<char>, Json)>, k: Seq<char>, v: Json) -> Seq<(Seq<char>, Json)>
    decreases ms.len(),
{
    if ms.len() == 0 {
        seq![(k, v)]
    } else if ms.last().0 == k {
        ms.drop_last().push((k, v))
    } else if seq_lt(ms.last().0, k) {
        ms.push((k, v))
    } else {
        map_insert(ms.drop_last(), k, v).push(ms.last())
    }
}

/// The member names in strictly increasing order.
pub open spec fn names_ordered(ms: Seq<(Seq<char>, Json)>) -> bool {
    forall|i: int, j: int| 0 <= i < j < ms.len() ==> seq_lt(ms[i].0, ms[j].0)
}

/// The names of the members.
pub open spec fn member_names_set(ms: Seq<(Seq<char>, Json)>) -> Set<Seq<char>> {
    Set::new(|n: Seq<char>| exists|i: int| 0 <= i < ms.len() && ms[i].0 == n)
}

/// No text comes before itself.
proof fn lemma_seq_lt_irreflexive(a: Seq<char>)
    ensures
        !seq_lt(a, a),
    decreases a.len(),
{
    if a.len() > 0 {
        lemma_seq_lt_irreflexive(a.drop_first());
    }
}

/// Coming before is transitive.
proof fn lemma_seq_lt_transitive(a: Seq<char>, b: Seq<char>, c: Seq<char>)
    requires
        seq_lt(a, b),
        seq_lt(b, c),
    ensures
        seq_lt(a, c),
    decreases a.len(),
{
    if a.len() > 0 && b.len() > 0 && c.len() > 0 && a[0] == b[0] && b[0] == c[0] {
        lemma_seq_lt_transitive(a.drop_first(), b.drop_first(), c.drop_first());
    }
}

/// Of two different texts, one comes before the other.
proof fn lemma_seq_lt_total(a: Seq<char>, b: Seq<char>)
    requires
        a != b,
    ensures
        seq_lt(a, b) || seq_lt(b, a),
    decreases a.len(),
{
    if a.len() > 0 && b.len() > 0 && a[0] == b[0] {
        if a.drop_first() == b.drop_first() {
            assert(a =~= seq![a[0]] + a.drop_first());
            assert(b =~= seq![b[0]] + b.drop_first());
        }
        lemma_seq_lt_total(a.drop_first(), b.drop_first());
    } else if a.len() == 0 && b.len() == 0 {
        assert(a =~= b);
    } else if a.len() > 0 && b.len() > 0 {
        let (x, y) = (a[0], b[0]);
        assert(x != y);
        vstd::utf8::char_u32_cast(x, x as u32);
        vstd::utf8::char_u32_cast(y, y as u32);
        assert((x as u32) != (y as u32));
    }
}

/// Looking a name up after one more member: what was found before, else
/// the new member when it has the name.
proof fn lemma_member_value_push(ms: Seq<(Seq<char>, Json)>, x: (Seq<char>, Json), key: Seq<char>)
    ensures
        member_value(ms.push(x), key) == match member_value(ms, key) {
            Some(v) => Some(v),
            None => if x.0 == key {
                Some(x.1)
            } else {
                None
            },
        },
    decreases ms.len(),
{
    let p = ms.push(x);
    if ms.len() > 0 {
        assert(p.drop_first() =~= ms.drop_first().push(x));
        lemma_member_value_push(ms.drop_first(), x, key);
        assert(p[0] == ms[0]);
        if ms[0].0 == key {
            assert(member_value(p, key) == Some(ms[0].1));
            assert(member_value(ms, key) == Some(ms[0].1));
        } else {
            assert(member_value(p, key) == member_value(p.drop_first(), key));
            assert(member_value(ms, key) == member_value(ms.drop_first(), key));
        }
    } else {
        assert(p.drop_first() =~= Seq::<(Seq<char>, Json)>::empty());
        assert(p[0] == x);
        assert(member_value(ms, key) is None);
        assert(member_value(p.drop_first(), key) is None);
    }
}

/// A name that no member has is not found.
proof fn lemma_member_value_absent(ms: Seq<(Seq<char>, Json)>, key: Seq<char>)
    requires
        forall|i: int| 0 <= i < ms.len() ==> ms[i].0 != key,
    ensures
        member_value(ms, key) is None,
    decreases ms.len(),
{
    if ms.len() > 0 {
        assert(ms[0].0 != key);
        lemma_member_value_absent(ms.drop_first(), key);
    }
}

/// Inserting into members in name order keeps them in name order, adds
/// the name, and changes what is found under that name only.
proof fn lemma_map_insert(ms: Seq<(Seq<char>, Json)>, k: Seq<char>, v: Json)
    requires
        names_ordered(ms),
    ensures
        names_ordered(map_insert(ms, k, v)),
        member_names_set(map_insert(ms, k, v)) == member_names_set(ms).insert(k),
        forall|key: Seq<char>| #[trigger] member_value(map_insert(ms, k, v), key) == if key == k {
            Some(v)
        } else {
            member_value(ms, key)
        },
    decreases ms.len(),
{
    let r = map_insert(ms, k, v);
    if ms.len() == 0 {
        assert(r == seq![(k, v)]);
        assert(member_names_set(r) =~= member_names_set(ms).insert(k)) by {
            assert(r[0].0 == k);
        }
        assert(r =~= ms.push((k, v)));
        assert forall|key: Seq<char>| #[trigger] member_value(r, key) == if key == k {
            Some(v)
        } else {
            member_value(ms, key)
        } by {
            lemma_member_value_push(ms, (k, v), key);
        }
    } else {
        let init = ms.drop_last();
        let last = ms.last();
        assert(ms =~= init.push(last));
        assert(names_ordered(init));
        assert forall|i: int| 0 <= i < init.len() implies #[trigger] seq_lt(init[i].0, last.0) by {
            assert(ms[i].0 == init[i].0);
        }
        assert forall|i: int| 0 <= i < init.len() implies init[i].0 != last.0 by {
            lemma_seq_lt_irreflexive(last.0);
            assert(seq_lt(init[i].0, last.0));
        }
        if last.0 == k {
            assert(r == init.push((k, v)));
            assert(member_names_set(r) =~= member_names_set(ms).insert(k)) by {
                assert forall|n: Seq<char>| member_names_set(ms).contains(n) implies member_names_set(r).contains(n) by {
                    let i = choose|i: int| 0 <= i < ms.len() && ms[i].0 == n;
                    assert(r[i].0 == n);
                }
                assert forall|n: Seq<char>| member_names_set(r).contains(n) implies member_names_set(ms).insert(k).contains(n) by {
                    let i = choose|i: int| 0 <= i < r.len() && r[i].0 == n;
                    assert(ms[i].0 == n);
                }
            }
            assert forall|i: int, j: int| 0 <= i < j < r.len() implies seq_lt(r[i].0, r[j].0) by {
                assert(r[i].0 == ms[i].0 && r[j].0 == ms[j].0);
            }
            lemma_member_value_absent(init, last.0);
            assert forall|key: Seq<char>| #[trigger] member_value(r, key) == if key == k {
                Some(v)
            } else {
                member_value(ms, key)
            } by {
                lemma_member_value_push(init, (k, v), key);
                lemma_member_value_push(init, last, key);
                if key == k {
                    lemma_member_value_absent(init, key);
                }
            }
        } else if seq_lt(last.0, k) {
            assert(r == ms.push((k, v)));
            assert forall|i: int| 0 <= i < ms.len() implies #[trigger] seq_lt(ms[i].0, k) by {
                if i < ms.len() - 1 {
                    assert(seq_lt(ms[i].0, last.0));
                    lemma_seq_lt_transitive(ms[i].0, last.0, k);
                }
            }
            assert forall|i: int| 0 <= i < ms.len() implies ms[i].0 != k by {
                lemma_seq_lt_irreflexive(k);
                assert(seq_lt(ms[i].0, k));
            }
            lemma_member_value_absent(ms, k);
            assert forall|i: int, j: int| 0 <= i < j < r.len() implies seq_lt(r[i].0, r[j].0) by {
                if j < ms.len() {
                    assert(r[i].0 == ms[i].0 && r[j].0 == ms[j].0);
                } else {
                    assert(r[i].0 == ms[i].0);
                    assert(seq_lt(ms[i].0, k));
                }
            }
            assert(member_names_set(r) =~= member_names_set(ms).insert(k)) by {
                assert forall|n: Seq<char>| member_names_set(ms).contains(n) implies member_names_set(r).contains(n) by {
                    let i = choose|i: int| 0 <= i < ms.len() && ms[i].0 == n;
                    assert(r[i].0 == n);
                }
                assert(r[ms.len() as int].0 == k);
                assert forall|n: Seq<char>| member_names_set(r).contains(n) implies member_names_set(ms).insert(k).contains(n) by {
                    let i = choose|i: int| 0 <= i < r.len() && r[i].0 == n;
                    if i < ms.len() {
                        assert(ms[i].0 == n);
                    }
                }
            }
            assert forall|key: Seq<char>| #[trigger] member_value(r, key) == if key == k {
                Some(v)
            } else {
                member_value(ms, key)
            } by {
                lemma_member_value_push(ms, (k, v), key);
            }
        } else {
            lemma_seq_lt_total(last.0, k);
            assert(seq_lt(k, last.0));
            lemma_map_insert(init, k, v);
            let ri = map_insert(init, k, v);
            assert(r == ri.push(last));
            assert forall|i: int| 0 <= i < ri.len() implies #[trigger] seq_lt(ri[i].0, last.0) by {
                assert(member_names_set(ri).contains(ri[i].0));
                assert(member_names_set(init).insert(k).contains(ri[i].0));
                if ri[i].0 != k {
                    let q = choose|q: int| 0 <= q < init.len() && init[q].0 == ri[i].0;
                    assert(seq_lt(init[q].0, last.0));
                }
            }
            assert forall|i: int| 0 <= i < ri.len() implies ri[i].0 != last.0 by {
                lemma_seq_lt_irreflexive(last.0);
                assert(seq_lt(ri[i].0, last.0));
            }
            lemma_member_value_absent(ri, last.0);
            lemma_member_value_absent(init, last.0);
            assert forall|i: int, j: int| 0 <= i < j < r.len() implies seq_lt(r[i].0, r[j].0) by {
                if j == r.len() - 1 {
                    assert(r[i].0 == ri[i].0);
                    assert(seq_lt(ri[i].0, last.0));
                } else {
                    assert(r[i] == ri[i] && r[j] == ri[j]);
                }
            }
            assert(member_names_set(r) =~= member_names_set(ms).insert(k)) by {
                assert forall|n: Seq<char>| member_names_set(ms).contains(n) implies member_names_set(r).contains(n) by {
                    let i = choose|i: int| 0 <= i < ms.len() && ms[i].0 == n;
                    if i < init.len() {
                        assert(init[i].0 == n);
                        assert(member_names_set(init).contains(n));
                        assert(member_names_set(ri).contains(n));
                        let q = choose|q: int| 0 <= q < ri.len() && ri[q].0 == n;
                        assert(r[q].0 == n);
                    } else {
                        assert(r[r.len() - 1].0 == n);
                    }
                }
                assert(member_names_set(ri).contains(k));
                let qk = choose|q: int| 0 <= q < ri.len() && ri[q].0 == k;
                assert(r[qk].0 == k);
                assert forall|n: Seq<char>| member_names_set(r).contains(n) implies member_names_set(ms).insert(k).contains(n) by {
                    let i = choose|i: int| 0 <= i < r.len() && r[i].0 == n;
                    if i < ri.len() {
                        assert(ri[i].0 == n);
                        assert(member_names_set(ri).contains(n));
                        if n != k {
                            assert(member_names_set(init).contains(n));
                            let q = choose|q: int| 0 <= q < init.len() && init[q].0 == n;
                            assert(ms[q].0 == n);
                        }
                    } else {
                        assert(ms[ms.len() - 1].0 == n);
                    }
                }
            }
            assert forall|key: Seq<char>| #[trigger] member_value(r, key) == if key == k {
                Some(v)
            } else {
                member_value(ms, key)
            } by {
                lemma_member_value_push(ri, last, key);
                lemma_member_value_push(init, last, key);
                assert(member_value(ri, key) == if key == k {
                    Some(v)
                } else {
                    member_value(init, key)
                });
            }
        }
    }
}

/// Setting a member of an object whose member names are in order keeps
/// them in order (so each name stays once), adds the name, and makes it
/// hold the new value while every other name keeps what it held.
pub proof fn law_member_set_is_found(ms: Seq<(Seq<char>, Json)>, k: Seq<char>, v: Json)
    requires
        names_ordered(ms),
    ensures
        names_ordered(map_insert(ms, k, v)),
        forall|i: int, j: int| 0 <= i < j < map_insert(ms, k, v).len() ==> map_insert(ms, k, v)[i].0 != map_insert(ms, k, v)[j].0,
        member_names_set(map_insert(ms, k, v)) == member_names_set(ms).insert(k),
        member_value(map_insert(ms, k, v), k) == Some(v),
        forall|key: Seq<char>| key != k ==> #[trigger] member_value(map_insert(ms, k, v), key) == member_value(ms, key),
{
    lemma_map_insert(ms, k, v);
    let r = map_insert(ms, k, v);
    assert forall|i: int, j: int| 0 <= i < j < r.len() implies r[i].0 != r[j].0 by {
        lemma_seq_lt_irreflexive(r[i].0);
        assert(seq_lt(r[i].0, r[j].0));
    }
}

/// The first `n` members inserted, in turn, into an empty map.
pub open spec fn map_from(ms: Seq<(Seq<char>, Json)>, n: int) -> Seq<(Seq<char>, Json)>
    decreases n,
{
    if n <= 0 || n > ms.len() {
        Seq::empty()
    } else {
        map_insert(map_from(ms, n - 1), ms[n - 1].0, ms[n - 1].1)
    }
}

/// `x` placed after every string that it does not come before.
pub open spec fn insert_str(sorted: Seq<Seq<char>>, x: Seq<char>) -> Seq<Seq<char>>
    decreases sorted.len(),
{
    if sorted.len() == 0 {
        seq![x]
    } else if !seq_lt(x, sorted.last()) {
        sorted.push(x)
    } else {
        insert_str(sorted.drop_last(), x).push(sorted.last())
    }
}

/// The strings sorted in code-point order.
pub open spec fn sort_strs(xs: Seq<Seq<char>>) -> Seq<Seq<char>>
    decreases xs.len(),
{
    if xs.len() == 0 {
        Seq::empty()
    } else {
        insert_str(sort_strs(xs.drop_last()), xs.last())
    }
}

/// Strings as JSON string values.
pub open spec fn str_values(xs: Seq<Seq<char>>) -> Seq<Json> {
    xs.map_values(|x: Seq<char>| Json::Str(x))
}

// ---------------------------------------------------------------- inference

/// A schema of one type: `{"type": t}`.
pub open spec fn type_schema(t: Seq<char>) -> Json {
    Json::Object(seq![("type"@, Json::Str(t))])
}

/// All characters are ASCII hexadecimal digits, but those at positions 8,
/// 13, 18 and 23, which are dashes; and there are 36.
pub open spec fn uuid_text(s: Seq<char>) -> bool {
    &&& s.len() == 36
    &&& forall|i: int| 0 <= i < 36 ==> if i == 8 || i == 13 || i == 18 || i == 23 {
        #[trigger] s[i] == '-'
    } else {
        is_hex_digit(s[i])
    }
}

/// An ASCII hexadecimal digit.
pub open spec fn is_hex_digit(c: char) -> bool {
    ('0' <= c && c <= '9') || ('a' <= c && c <= 'f') || ('A' <= c && c <= 'F')
}

/// An ASCII decimal digit.
pub open spec fn is_digit(c: char) -> bool {
    '0' <= c && c <= '9'
}

/// The text starts like a date: four digits and a dash.
pub open spec fn date_prefix(s: Seq<char>) -> bool {
    s.len() >= 5 && is_digit(s[0]) && is_digit(s[1]) && is_digit(s[2]) && is_digit(s[3]) && s[4] == '-'
}

/// The format a string value suggests: `uuid`, `email`, `date-time`,
/// `date` or `uri`, tried in that order.
pub open spec fn string_format(s: Seq<char>) -> Option<Seq<char>> {
    if utf8_len(s) == 36 && uuid_text(s) {
        Some("uuid"@)
    } else if s.contains('@') && s.contains('.') {
        Some("email"@)
    } else if utf8_len(s) >= 10 && (s.contains('T') || s.contains(' ')) && date_prefix(s) {
        Some("date-time"@)
    } else if utf8_len(s) == 10 && date_prefix(s) {
        Some("date"@)
    } else if seq_starts_with(s, "http://"@) || seq_starts_with(s, "https://"@) {
        Some("uri"@)
    } else {
        None
    }
}

/// The number of bytes of a text in UTF-8.
pub open spec fn utf8_len(s: Seq<char>) -> int
    decreases s.len(),
{
    if s.len() == 0 {
        0
    } else {
        utf8_len(s.drop_last()) + char_utf8_len(s.last())
    }
}

/// The number of bytes of a character in UTF-8.
pub open spec fn char_utf8_len(c: char) -> int {
    if (c as u32) < 0x80 {
        1
    } else if (c as u32) < 0x800 {
        2
    } else if (c as u32) < 0x10000 {
        3
    } else {
        4
    }
}

/// The string schema of a value: `{"type": "string"}`, with its format
/// when it suggests one.
pub open spec fn string_schema(s: Seq<char>) -> Json {
    match string_format(s) {
        Some(f) => Json::Object(seq![("format"@, Json::Str(f)), ("type"@, Json::Str("string"@))]),
        None => type_schema("string"@),
    }
}

/// The schema inferred from one value.
pub open spec fn infer_json(v: Json) -> Json
    decreases v, 0int,
{
    match v {
        Json::Null => type_schema("null"@),
        Json::Bool(_) => type_schema("boolean"@),
        Json::Number(is_i64, _) => if is_i64 {
            type_schema("integer"@)
        } else {
            type_schema("number"@)
        },
        Json::Str(s) => string_schema(s),
        Json::Array(items) => if items.len() == 0 {
            Json::Object(seq![("items"@, Json::Object(Seq::empty())), ("type"@, Json::Str("array"@))])
        } else {
            Json::Object(seq![("items"@, infer_items(items, items.len() as int)), ("type"@, Json::Str("array"@))])
        },
        Json::Object(ms) => Json::Object(
            seq![
                ("properties"@, Json::Object(infer_props(ms, ms.len() as int))),
                ("required"@, Json::Array(str_values(sort_strs(member_names(ms))))),
                ("type"@, Json::Str("object"@)),
            ],
        ),
    }
}

/// The schemas of the first `n` items merged in turn.
pub open spec fn infer_items(items: Seq<Json>, n: int) -> Json
    decreases items, n,
{
    if n <= 1 || n > items.len() {
        if items.len() > 0 { infer_json(items[0]) } else { Json::Object(Seq::empty()) }
    } else {
        merge_json(infer_items(items, n - 1), infer_json(items[n - 1]))
    }
}

/// The schemas of the first `n` members, as a map of properties.
pub open spec fn infer_props(ms: Seq<(Seq<char>, Json)>, n: int) -> Seq<(Seq<char>, Json)>
    decreases ms, n,
{
    if n <= 0 || n > ms.len() {
        Seq::empty()
    } else {
        map_insert(infer_props(ms, n - 1), ms[n - 1].0, infer_json(ms[n - 1].1))
    }
}

/// The names of members, in order.
pub open spec fn member_names(ms: Seq<(Seq<char>, Json)>) -> Seq<Seq<char>> {
    ms.map_values(|m: (Seq<char>, Json)| m.0)
}

// ---------------------------------------------------------------- merging

/// The string value of member `k`.
pub open spec fn member_str(v: Json, k: Seq<char>) -> Option<Seq<char>> {
    match v.member(k) {
        Some(Json::Str(s)) => Some(s),
        _ => None,
    }
}

/// The properties of an object schema (none when absent).
pub open spec fn props_of(v: Json) -> Seq<(Seq<char>, Json)> {
    match v.member("properties"@) {
        Some(Json::Object(ps)) => ps,
        _ => Seq::empty(),
    }
}

/// The names an object schema requires (the string items of `required`).
pub open spec fn required_of(v: Json) -> Seq<Seq<char>> {
    match v.member("required"@) {
        Some(Json::Array(items)) => string_items(items, items.len() as int),
        _ => Seq::empty(),
    }
}

/// The string items among the first `n`.
pub open spec fn string_items(items: Seq<Json>, n: int) -> Seq<Seq<char>>
    decreases n,
{
    if n <= 0 || n > items.len() {
        Seq::empty()
    } else {
        match items[n - 1] {
            Json::Str(s) => string_items(items, n - 1).push(s),
            _ => string_items(items, n - 1),
        }
    }
}

/// The distinct strings of `xs` among its first `n` that also occur in
/// `ys`, in order of first occurrence.
pub open spec fn common_strs(xs: Seq<Seq<char>>, ys: Seq<Seq<char>>, n: int) -> Seq<Seq<char>>
    decreases n,
{
    if n <= 0 || n > xs.len() {
        Seq::empty()
    } else {
        let c = common_strs(xs, ys, n - 1);
        if ys.contains(xs[n - 1]) && !c.contains(xs[n - 1]) {
            c.push(xs[n - 1])
        } else {
            c
        }
    }
}

/// Two schemas merged: objects merge their properties, arrays their items;
/// equal primitive types keep the first; different types give `oneOf`;
/// a schema without a type is kept.
pub open spec fn merge_json(a: Json, b: Json) -> Json
    decreases json_depth(a), 3int, 0int,
{
    match (member_str(a, "type"@), member_str(b, "type"@)) {
        (Some(ta), Some(tb)) => if ta == tb {
            if ta == "object"@ {
                merge_objects(a, b)
            } else if ta == "array"@ {
                merge_arrays(a, b)
            } else {
                a
            }
        } else {
            Json::Object(seq![("oneOf"@, Json::Array(seq![a, b]))])
        },
        _ => a,
    }
}

/// Two object schemas merged: all properties, those of both merged; the
/// names both require.
pub open spec fn merge_objects(a: Json, b: Json) -> Json
    decreases json_depth(a), 2int, 0int,
{
    let props = merge_props(a, props_of(b), props_of(b).len() as int);
    let required = sort_strs(common_strs(required_of(a), required_of(b), required_of(a).len() as int));
    if required.len() == 0 {
        Json::Object(seq![("properties"@, Json::Object(props)), ("type"@, Json::Str("object"@))])
    } else {
        Json::Object(
            seq![
                ("properties"@, Json::Object(props)),
                ("required"@, Json::Array(str_values(required))),
                ("type"@, Json::Str("object"@)),
            ],
        )
    }
}

/// The properties of `a`, then the first `n` of `pb` added: each merged
/// with the property of `a` of that name, if there is one.
pub open spec fn merge_props(a: Json, pb: Seq<(Seq<char>, Json)>, n: int) -> Seq<(Seq<char>, Json)>
    decreases json_depth(a), 1int, n,
{
    let pa = map_from(props_of(a), props_of(a).len() as int);
    if n <= 0 || n > pb.len() {
        pa
    } else {
        let acc = merge_props(a, pb, n - 1);
        let k = pb[n - 1].0;
        match member_value(pa, k) {
            Some(x) => {
                proof { lemma_prop_depth(a, k); }
                map_insert(acc, k, merge_json(x, pb[n - 1].1))
            },
            None => map_insert(acc, k, pb[n - 1].1),
        }
    }
}

/// Two array schemas merged by their items.
pub open spec fn merge_arrays(a: Json, b: Json) -> Json
    decreases json_depth(a), 2int, 0int,
{
    let items = match (a.member("items"@), b.member("items"@)) {
        (Some(ia), Some(ib)) => {
            proof { lemma_member_depth(a, "items"@); }
            merge_json(ia, ib)
        },
        (Some(ia), None) => ia,
        (None, Some(ib)) => ib,
        (None, None) => Json::Object(Seq::empty()),
    };
    Json::Object(seq![("items"@, items), ("type"@, Json::Str("array"@))])
}

/// Every value of `ms` is the value of some member of `src`.
pub open spec fn values_from(ms: Seq<(Seq<char>, Json)>, src: Seq<(Seq<char>, Json)>) -> bool {
    forall|i: int| 0 <= i < ms.len() ==> exists|j: int| 0 <= j < src.len() && #[trigger] ms[i].1 == src[j].1
}

/// Inserting a value of `src` keeps the values those of `src`.
pub proof fn lemma_insert_values(ms: Seq<(Seq<char>, Json)>, k: Seq<char>, v: Json, src: Seq<(Seq<char>, Json)>, j: int)
    requires
        values_from(ms, src),
        0 <= j < src.len(),
        src[j].1 == v,
    ensures
        values_from(map_insert(ms, k, v), src),
    decreases ms.len(),
{
    if ms.len() > 0 && ms.last().0 != k && !seq_lt(ms.last().0, k) {
        assert(values_from(ms.drop_last(), src)) by {
            assert forall|i: int| 0 <= i < ms.drop_last().len() implies exists|j2: int|
                0 <= j2 < src.len() && #[trigger] ms.drop_last()[i].1 == src[j2].1 by {
                assert(ms.drop_last()[i] == ms[i]);
            }
        }
        lemma_insert_values(ms.drop_last(), k, v, src, j);
        let r = map_insert(ms.drop_last(), k, v);
        assert(values_from(r.push(ms.last()), src)) by {
            assert forall|i: int| 0 <= i < r.push(ms.last()).len() implies exists|j2: int|
                0 <= j2 < src.len() && #[trigger] r.push(ms.last())[i].1 == src[j2].1 by {
                if i < r.len() {
                    assert(r.push(ms.last())[i] == r[i]);
                } else {
                    assert(r.push(ms.last())[i] == ms[ms.len() - 1]);
                }
            }
        }
    } else if ms.len() > 0 && ms.last().0 == k {
        assert(values_from(ms.drop_last().push((k, v)), src)) by {
            assert forall|i: int| 0 <= i < ms.drop_last().push((k, v)).len() implies exists|j2: int|
                0 <= j2 < src.len() && #[trigger] ms.drop_last().push((k, v))[i].1 == src[j2].1 by {
                if i < ms.len() - 1 {
                    assert(ms.drop_last().push((k, v))[i] == ms[i]);
                }
            }
        }
    } else {
        assert(values_from(map_insert(ms, k, v), src)) by {
            assert forall|i: int| 0 <= i < map_insert(ms, k, v).len() implies exists|j2: int|
                0 <= j2 < src.len() && #[trigger] map_insert(ms, k, v)[i].1 == src[j2].1 by {
                if i < ms.len() {
                    assert(map_insert(ms, k, v)[i] == ms[i]);
                }
            }
        }
    }
}

/// The values of a map built from members are values of those members.
pub proof fn lemma_map_from_values(ms: Seq<(Seq<char>, Json)>, n: int)
    requires
        0 <= n <= ms.len(),
    ensures
        values_from(map_from(ms, n), ms),
    decreases n,
{
    if n > 0 {
        lemma_map_from_values(ms, n - 1);
        lemma_insert_values(map_from(ms, n - 1), ms[n - 1].0, ms[n - 1].1, ms, n - 1);
    }
}

/// A property found in the map of `a`'s properties is less deep than `a`.
pub proof fn lemma_prop_depth(a: Json, k: Seq<char>)
    ensures
        member_value(map_from(props_of(a), props_of(a).len() as int), k) matches Some(x) ==> json_depth(x)
            < json_depth(a),
{
    let pa = props_of(a);
    let m = map_from(pa, pa.len() as int);
    if member_value(m, k) is Some {
        let i = lemma_member_index(m, k);
        lemma_map_from_values(pa, pa.len() as int);
        let j = choose|j: int| 0 <= j < pa.len() && m[i].1 == pa[j].1;
        lemma_members_depth(pa, pa.len() as int, j);
        match a.member("properties"@) {
            Some(Json::Object(ps)) => {
                lemma_member_depth(a, "properties"@);
            },
            _ => {},
        }
    }
}


// ---------------------------------------------------------------- executable maps

/// Members as views, member by member.
pub open spec fn mviews(ms: Seq<(String, JsonValue)>) -> Seq<(Seq<char>, Json)> {
    ms.map_values(|m: (String, JsonValue)| (m.0@, m.1@))
}

/// Comparing from position `i` on decides the order when the prefixes
/// before `i` agree.
proof fn lemma_seq_lt_from(a: Seq<char>, b: Seq<char>, i: int)
    requires
        0 <= i <= a.len(),
        i <= b.len(),
        a.subrange(0, i) == b.subrange(0, i),
    ensures
        seq_lt(a, b) == seq_lt(a.subrange(i, a.len() as int), b.subrange(i, b.len() as int)),
    decreases i,
{
    if i > 0 {
        assert(a[0] == a.subrange(0, i)[0]);
        assert(b[0] == b.subrange(0, i)[0]);
        assert(a.drop_first().subrange(0, i - 1) =~= a.subrange(0, i).drop_first());
        assert(b.drop_first().subrange(0, i - 1) =~= b.subrange(0, i).drop_first());
        lemma_seq_lt_from(a.drop_first(), b.drop_first(), i - 1);
        assert(a.drop_first().subrange(i - 1, a.len() - 1) =~= a.subrange(i, a.len() as int));
        assert(b.drop_first().subrange(i - 1, b.len() - 1) =~= b.subrange(i, b.len() as int));
    } else {
        assert(a.subrange(0, a.len() as int) =~= a);
        assert(b.subrange(0, b.len() as int) =~= b);
    }
}

/// Whether `a` comes before `b` in code-point order.
pub fn str_lt(a: &str, b: &str) -> (r: bool)
    ensures
        r == seq_lt(a@, b@),
{
    let x = crate::text::chars_of(a);
    let y = crate::text::chars_of(b);
    let mut i: usize = 0;
    while i < x.len() && i < y.len()
        invariant
            i <= x@.len(),
            i <= y@.len(),
            x@ == a@,
            y@ == b@,
            x@.subrange(0, i as int) == y@.subrange(0, i as int),
        decreases x.len() - i,
    {
        if x[i] != y[i] {
            proof {
                lemma_seq_lt_from(x@, y@, i as int);
                let xs = x@.subrange(i as int, x@.len() as int);
                let ys = y@.subrange(i as int, y@.len() as int);
                assert(xs[0] == x@[i as int]);
                assert(ys[0] == y@[i as int]);
            }
            return (x[i] as u32) < (y[i] as u32);
        }
        assert(x@.subrange(0, i + 1) =~= x@.subrange(0, i as int).push(x@[i as int]));
        assert(y@.subrange(0, i + 1) =~= y@.subrange(0, i as int).push(y@[i as int]));
        i = i + 1;
    }
    proof {
        lemma_seq_lt_from(x@, y@, i as int);
    }
    i == x.len() && i < y.len()
}

/// Sets member `k` to `v`, keeping the members in name order.
pub fn map_insert_exec(ms: &mut Vec<(String, JsonValue)>, k: String, v: JsonValue)
    ensures
        mviews(final(ms)@) == map_insert(mviews(old(ms)@), k@, v@),
{
    let ghost m0 = mviews(ms@);
    let mut p = ms.len();
    assert(m0.subrange(0, p as int) =~= m0);
    assert(m0.subrange(p as int, m0.len() as int) =~= Seq::<(Seq<char>, Json)>::empty());
    while p > 0 && !crate::text::str_eq(ms[p - 1].0.as_str(), k.as_str()) && !str_lt(ms[p - 1].0.as_str(), k.as_str())
        invariant
            p <= ms@.len(),
            mviews(ms@) == m0,
            m0.len() == ms@.len(),
            map_insert(m0, k@, v@) == map_insert(m0.subrange(0, p as int), k@, v@) + m0.subrange(p as int, m0.len() as int),
        decreases p,
    {
        let ghost sub = m0.subrange(0, p as int);
        assert(sub.drop_last() =~= m0.subrange(0, p - 1));
        assert(sub.last() == m0[p - 1]);
        assert(m0.subrange(p - 1, m0.len() as int) =~= seq![m0[p - 1]] + m0.subrange(p as int, m0.len() as int));
        p = p - 1;
    }
    let ghost sub = m0.subrange(0, p as int);
    if p > 0 && crate::text::str_eq(ms[p - 1].0.as_str(), k.as_str()) {
        assert(sub.last() == m0[p - 1]);
        assert(sub.drop_last() =~= m0.subrange(0, p - 1));
        let ghost kv = (k@, v@);
        ms.set(p - 1, (k, v));
        assert(mviews(ms@) =~= m0.update(p - 1, kv));
        assert(mviews(ms@) =~= m0.subrange(0, p - 1).push(kv) + m0.subrange(p as int, m0.len() as int));
    } else {
        proof {
            if p > 0 {
                assert(sub.last() == m0[p - 1]);
            }
        }
        assert(map_insert(sub, k@, v@) =~= sub.push((k@, v@)));
        let ghost kv = (k@, v@);
        ms.insert(p, (k, v));
        assert(mviews(ms@) =~= m0.subrange(0, p as int).push(kv) + m0.subrange(p as int, m0.len() as int));
    }
}

/// `x` inserted after every string that it does not come before.
fn insert_str_exec(sorted: &mut Vec<String>, x: String)
    ensures
        crate::text::views_of(final(sorted)@) == insert_str(crate::text::views_of(old(sorted)@), x@),
{
    let ghost s0 = crate::text::views_of(sorted@);
    let mut p = sorted.len();
    assert(s0.subrange(0, p as int) =~= s0);
    assert(s0.subrange(p as int, s0.len() as int) =~= Seq::<Seq<char>>::empty());
    while p > 0 && str_lt(x.as_str(), sorted[p - 1].as_str())
        invariant
            p <= sorted@.len(),
            crate::text::views_of(sorted@) == s0,
            s0.len() == sorted@.len(),
            insert_str(s0, x@) == insert_str(s0.subrange(0, p as int), x@) + s0.subrange(p as int, s0.len() as int),
        decreases p,
    {
        let ghost sub = s0.subrange(0, p as int);
        assert(sub.drop_last() =~= s0.subrange(0, p - 1));
        assert(sub.last() == s0[p - 1]);
        assert(s0.subrange(p - 1, s0.len() as int) =~= seq![s0[p - 1]] + s0.subrange(p as int, s0.len() as int));
        p = p - 1;
    }
    proof {
        let sub = s0.subrange(0, p as int);
        if p > 0 {
            assert(sub.last() == s0[p - 1]);
        }
        assert(insert_str(sub, x@) =~= sub.push(x@));
    }
    let ghost xv = x@;
    sorted.insert(p, x);
    assert(crate::text::views_of(sorted@) =~= s0.subrange(0, p as int).push(xv) + s0.subrange(p as int, s0.len() as int));
}

/// The strings sorted in code-point order.
pub fn sort_strings(xs: &Vec<String>) -> (r: Vec<String>)
    ensures
        crate::text::views_of(r@) == sort_strs(crate::text::views_of(xs@)),
{
    let mut r: Vec<String> = Vec::new();
    let mut k: usize = 0;
    assert(crate::text::views_of(r@) =~= sort_strs(crate::text::views_of(xs@).subrange(0, 0)));
    while k < xs.len()
        invariant
            k <= xs@.len(),
            crate::text::views_of(r@) == sort_strs(crate::text::views_of(xs@).subrange(0, k as int)),
        decreases xs.len() - k,
    {
        let ghost pre = crate::text::views_of(xs@).subrange(0, k + 1);
        assert(pre.drop_last() =~= crate::text::views_of(xs@).subrange(0, k as int));
        assert(pre.last() == xs@[k as int]@);
        insert_str_exec(&mut r, xs[k].clone());
        k = k + 1;
    }
    assert(crate::text::views_of(xs@).subrange(0, k as int) =~= crate::text::views_of(xs@));
    r
}


// ---------------------------------------------------------------- string formats

/// A text has no fewer than zero UTF-8 bytes.
pub proof fn lemma_utf8_len_nonneg(s: Seq<char>)
    ensures
        utf8_len(s) >= 0,
    decreases s.len(),
{
    if s.len() > 0 {
        lemma_utf8_len_nonneg(s.drop_last());
    }
}

/// Longer prefixes have at least as many UTF-8 bytes.
pub proof fn lemma_utf8_len_prefix(s: Seq<char>, i: int, j: int)
    requires
        0 <= i <= j <= s.len(),
    ensures
        utf8_len(s.subrange(0, i)) <= utf8_len(s.subrange(0, j)),
    decreases j - i,
{
    if i < j {
        lemma_utf8_len_prefix(s, i, j - 1);
        assert(s.subrange(0, j).drop_last() =~= s.subrange(0, j - 1));
    }
}

/// The UTF-8 length of the text, or `cap` when it is at least `cap`.
fn utf8_len_capped(s: &[char], cap: usize) -> (r: usize)
    requires
        0 < cap <= 1000,
    ensures
        r == if utf8_len(s@) < cap { utf8_len(s@) } else { cap as int },
{
    let mut sum: usize = 0;
    let mut i: usize = 0;
    assert(s@.subrange(0, 0) =~= Seq::<char>::empty());
    while i < s.len()
        invariant
            i <= s@.len(),
            0 < cap <= 1000,
            sum == utf8_len(s@.subrange(0, i as int)),
            sum < cap,
        decreases s.len() - i,
    {
        let c = s[i] as u32;
        let w: usize = if c < 0x80 { 1 } else if c < 0x800 { 2 } else if c < 0x10000 { 3 } else { 4 };
        assert(s@.subrange(0, i + 1).drop_last() =~= s@.subrange(0, i as int));
        sum = sum + w;
        i = i + 1;
        if sum >= cap {
            proof {
                lemma_utf8_len_prefix(s@, i as int, s@.len() as int);
                assert(s@.subrange(0, s@.len() as int) =~= s@);
            }
            return cap;
        }
    }
    assert(s@.subrange(0, s@.len() as int) =~= s@);
    sum
}

/// Whether the character is an ASCII hexadecimal digit.
fn hex_digit(c: char) -> (r: bool)
    ensures
        r == is_hex_digit(c),
{
    ('0' <= c && c <= '9') || ('a' <= c && c <= 'f') || ('A' <= c && c <= 'F')
}

/// Whether the character is an ASCII decimal digit.
fn dec_digit(c: char) -> (r: bool)
    ensures
        r == is_digit(c),
{
    '0' <= c && c <= '9'
}

/// Whether the text starts like a date.
fn has_date_prefix(s: &[char]) -> (r: bool)
    ensures
        r == date_prefix(s@),
{
    s.len() >= 5 && dec_digit(s[0]) && dec_digit(s[1]) && dec_digit(s[2]) && dec_digit(s[3]) && s[4] == '-'
}

/// Schema inference from observed values.
pub struct SchemaInferrer {
    /// How many examples are kept.
    pub max_examples: usize,
}

/// A schema inferred from samples.
pub struct InferredSchema {
    /// The JSON Schema.
    pub schema: JsonValue,
    /// Example values.
    pub examples: Vec<JsonValue>,
    /// Number of samples used.
    pub sample_count: usize,
}

impl SchemaInferrer {
    /// An inferrer that keeps three examples.
    pub fn new() -> (s: Self)
        ensures
            s.max_examples == 3,
    {
        SchemaInferrer { max_examples: 3 }
    }

    /// Whether the text is a UUID: 36 bytes, hexadecimal digits with
    /// dashes at positions 8, 13, 18 and 23.
    pub fn is_uuid(&self, s: &str) -> (r: bool)
        ensures
            r == (utf8_len(s@) == 36 && uuid_text(s@)),
    {
        let c = crate::text::chars_of(s);
        if utf8_len_capped(c.as_slice(), 64) != 36 || c.len() != 36 {
            return false;
        }
        let mut i: usize = 0;
        while i < 36
            invariant
                i <= 36,
                c@ == s@,
                c@.len() == 36,
                forall|k: int| 0 <= k < i ==> if k == 8 || k == 13 || k == 18 || k == 23 {
                    #[trigger] c@[k] == '-'
                } else {
                    is_hex_digit(c@[k])
                },
            decreases 36 - i,
        {
            let ok = if i == 8 || i == 13 || i == 18 || i == 23 { c[i] == '-' } else { hex_digit(c[i]) };
            if !ok {
                return false;
            }
            i = i + 1;
        }
        true
    }

    /// The format a string value suggests: `uuid`, `email`, `date-time`,
    /// `date` or `uri`, tried in that order.
    pub fn detect_string_format(&self, value: &str) -> (r: Option<String>)
        ensures
            crate::text::opt_view(r) == string_format(value@),
    {
        let c = crate::text::chars_of(value);
        let n = utf8_len_capped(c.as_slice(), 64);
        if n == 36 && self.is_uuid(value) {
            return Some(String::from_str("uuid"));
        }
        if crate::text::contains_char(c.as_slice(), '@') && crate::text::contains_char(c.as_slice(), '.') {
            return Some(String::from_str("email"));
        }
        if n >= 10 && (crate::text::contains_char(c.as_slice(), 'T') || crate::text::contains_char(c.as_slice(), ' '))
            && has_date_prefix(c.as_slice()) {
            return Some(String::from_str("date-time"));
        }
        if n == 10 && has_date_prefix(c.as_slice()) {
            return Some(String::from_str("date"));
        }
        let http = crate::text::chars_of("http://");
        let https = crate::text::chars_of("https://");
        if crate::text::starts_with(c.as_slice(), http.as_slice()) || crate::text::starts_with(c.as_slice(), https.as_slice()) {
            return Some(String::from_str("uri"));
        }
        None
    }
}

impl Default for SchemaInferrer {
    fn default() -> (s: Self)
        ensures
            s.max_examples == 3,
    {
        Self::new()
    }
}


// ---------------------------------------------------------------- executable inference

/// Member views as the JSON view of an object reads them.
pub proof fn lemma_mviews(ms: Seq<(String, JsonValue)>)
    ensures
        view_members(ms) == mviews(ms),
{
    lemma_view_members_map(ms);
    assert(ms.map_values(|m: (String, JsonValue)| (m.0@, view_json(m.1))) =~= mviews(ms));
}

/// Item views as the JSON view of an array reads them.
pub proof fn lemma_iviews(items: Seq<JsonValue>)
    ensures
        view_items(items) == items.map_values(|v: JsonValue| v@),
{
    lemma_view_items_map(items);
    assert(items.map_values(|v: JsonValue| view_json(v)) =~= items.map_values(|v: JsonValue| v@));
}

/// A string value.
pub fn jstr(s: &str) -> (r: JsonValue)
    ensures
        r@ == Json::Str(s@),
{
    JsonValue::String(String::from_str(s))
}

/// An object value from members.
pub fn jobj(ms: Vec<(String, JsonValue)>) -> (r: JsonValue)
    ensures
        r@ == Json::Object(mviews(ms@)),
{
    proof { lemma_mviews(ms@); }
    JsonValue::Object(ms)
}

/// The position of the first member named `k`.
pub fn lookup(ms: &Vec<(String, JsonValue)>, k: &str) -> (r: Option<usize>)
    ensures
        match r {
            Some(i) => i < ms@.len() && member_value(mviews(ms@), k@) == Some(ms@[i as int].1@),
            None => member_value(mviews(ms@), k@) is None,
        },
{
    let ghost mv = mviews(ms@);
    let mut i: usize = 0;
    assert(mv.subrange(0, mv.len() as int) =~= mv);
    while i < ms.len()
        invariant
            i <= ms@.len(),
            mv == mviews(ms@),
            mv.len() == ms@.len(),
            member_value(mv, k@) == member_value(mv.subrange(i as int, mv.len() as int), k@),
        decreases ms.len() - i,
    {
        assert(mv.subrange(i as int, mv.len() as int).drop_first() =~= mv.subrange(i + 1, mv.len() as int));
        assert(mv.subrange(i as int, mv.len() as int)[0] == mv[i as int]);
        if crate::text::str_eq(ms[i].0.as_str(), k) {
            return Some(i);
        }
        i = i + 1;
    }
    None
}

impl SchemaInferrer {
    /// `{"type": t}`.
    fn type_schema_of(t: &str) -> (r: JsonValue)
        ensures
            r@ == type_schema(t@),
    {
        let ms = vec![(String::from_str("type"), jstr(t))];
        let r = jobj(ms);
        assert(mviews(ms@) =~= seq![("type"@, Json::Str(t@))]);
        r
    }

    /// The string schema of a value.
    fn string_schema_with_format(&self, value: &str) -> (r: JsonValue)
        ensures
            r@ == string_schema(value@),
    {
        match self.detect_string_format(value) {
            Some(f) => {
                let ms = vec![(String::from_str("format"), JsonValue::String(f)), (String::from_str("type"), jstr("string"))];
                assert(mviews(ms@) =~= seq![("format"@, Json::Str(f@)), ("type"@, Json::Str("string"@))]);
                jobj(ms)
            },
            None => Self::type_schema_of("string"),
        }
    }

    /// The schema inferred from one value.
    pub fn infer_single(&self, value: &JsonValue) -> (r: JsonValue)
        ensures
            r@ == infer_json(value@),
        decreases value, 0int,
    {
        match value {
            JsonValue::Null => Self::type_schema_of("null"),
            JsonValue::Bool(_) => Self::type_schema_of("boolean"),
            JsonValue::Number(n) => if n.is_i64() {
                Self::type_schema_of("integer")
            } else {
                Self::type_schema_of("number")
            },
            JsonValue::String(s) => self.string_schema_with_format(s.as_str()),
            JsonValue::Array(items) => {
                proof {
                    assert(decreases_to!(*value => (*value)->Array_0));
                    lemma_view_items_len(items@);
                }
                if items.len() == 0 {
                    let none: Vec<(String, JsonValue)> = Vec::new();
                    assert(mviews(none@) =~= Seq::<(Seq<char>, Json)>::empty());
                    let ms = vec![(String::from_str("items"), jobj(none)), (String::from_str("type"), jstr("array"))];
                    assert(mviews(ms@) =~= seq![("items"@, Json::Object(Seq::empty())), ("type"@, Json::Str("array"@))]);
                    jobj(ms)
                } else {
                    let merged = self.infer_items(items);
                    let ms = vec![(String::from_str("items"), merged), (String::from_str("type"), jstr("array"))];
                    assert(mviews(ms@) =~= seq![
                        ("items"@, infer_items(view_items(items@), items@.len() as int)),
                        ("type"@, Json::Str("array"@)),
                    ]);
                    jobj(ms)
                }
            },
            JsonValue::Object(members) => {
                proof {
                    assert(decreases_to!(*value => (*value)->Object_0));
                    lemma_mviews(members@);
                }
                let props = self.infer_props(members);
                let mut names: Vec<String> = Vec::new();
                let mut k: usize = 0;
                while k < members.len()
                    invariant
                        k <= members@.len(),
                        crate::text::views_of(names@) == member_names(mviews(members@)).subrange(0, k as int),
                    decreases members.len() - k,
                {
                    let ghost before = names@;
                    names.push(members[k].0.clone());
                    assert(crate::text::views_of(names@) =~= crate::text::views_of(before).push(members@[k as int].0@));
                    assert(crate::text::views_of(names@) =~= member_names(mviews(members@)).subrange(0, k + 1));
                    k = k + 1;
                }
                assert(member_names(mviews(members@)).subrange(0, k as int) =~= member_names(mviews(members@)));
                let sorted = sort_strings(&names);
                let mut req: Vec<JsonValue> = Vec::new();
                let mut j: usize = 0;
                while j < sorted.len()
                    invariant
                        j <= sorted@.len(),
                        req@.map_values(|v: JsonValue| v@) == str_values(crate::text::views_of(sorted@)).subrange(0, j as int),
                    decreases sorted.len() - j,
                {
                    let ghost before = req@;
                    let item = JsonValue::String(sorted[j].clone());
                    req.push(item);
                    assert(req@.map_values(|v: JsonValue| v@) =~= before.map_values(|v: JsonValue| v@).push(item@));
                    assert(req@.map_values(|v: JsonValue| v@) =~= str_values(crate::text::views_of(sorted@)).subrange(0, j + 1));
                    j = j + 1;
                }
                assert(str_values(crate::text::views_of(sorted@)).subrange(0, j as int) =~= str_values(crate::text::views_of(sorted@)));
                proof { lemma_iviews(req@); }
                let ghost pv = mviews(props@);
                let ghost rv = req@;
                let ms = vec![
                    (String::from_str("properties"), jobj(props)),
                    (String::from_str("required"), JsonValue::Array(req)),
                    (String::from_str("type"), jstr("object")),
                ];
                assert(mviews(ms@) =~= seq![
                    ("properties"@, Json::Object(pv)),
                    ("required"@, Json::Array(view_items(rv))),
                    ("type"@, Json::Str("object"@)),
                ]);
                jobj(ms)
            },
        }
    }

    /// The schemas of the items merged in turn.
    fn infer_items(&self, items: &Vec<JsonValue>) -> (r: JsonValue)
        requires
            items@.len() > 0,
        ensures
            r@ == infer_items(view_items(items@), items@.len() as int),
        decreases items, 1int,
    {
        proof { lemma_iviews(items@); }
        let ghost vi = view_items(items@);
        proof { assert(decreases_to!(*items => items[0])); }
        let mut merged = self.infer_single(&items[0]);
        let mut k: usize = 1;
        while k < items.len()
            invariant
                1 <= k <= items@.len(),
                vi == view_items(items@),
                vi == items@.map_values(|v: JsonValue| v@),
                merged@ == infer_items(vi, k as int),
            decreases items.len() - k,
        {
            proof { assert(decreases_to!(*items => items[k as int])); }
            let next = self.infer_single(&items[k]);
            merged = self.merge_schemas(&merged, &next);
            k = k + 1;
        }
        merged
    }

    /// The schemas of the members, as a map of properties.
    fn infer_props(&self, members: &Vec<(String, JsonValue)>) -> (r: Vec<(String, JsonValue)>)
        ensures
            mviews(r@) == infer_props(view_members(members@), members@.len() as int),
        decreases members, 1int,
    {
        proof { lemma_mviews(members@); }
        let ghost vm = view_members(members@);
        let mut props: Vec<(String, JsonValue)> = Vec::new();
        let mut k: usize = 0;
        assert(mviews(props@) =~= Seq::<(Seq<char>, Json)>::empty());
        while k < members.len()
            invariant
                k <= members@.len(),
                vm == view_members(members@),
                vm == mviews(members@),
                mviews(props@) == infer_props(vm, k as int),
            decreases members.len() - k,
        {
            proof {
                assert(decreases_to!(*members => members[k as int]));
                assert(decreases_to!(members[k as int] => members[k as int].1));
            }
            let schema = self.infer_single(&members[k].1);
            map_insert_exec(&mut props, members[k].0.clone(), schema);
            k = k + 1;
        }
        props
    }

    /// The string value of member `k`.
    fn member_str_of<'a>(v: &'a JsonValue, k: &str) -> (r: Option<&'a String>)
        ensures
            match r {
                Some(s) => member_str(v@, k@) == Some(s@),
                None => member_str(v@, k@) is None,
            },
    {
        match v.get(k) {
            Some(m) => m.as_str(),
            None => None,
        }
    }

    /// Two schemas merged.
    fn merge_schemas(&self, a: &JsonValue, b: &JsonValue) -> (r: JsonValue)
        ensures
            r@ == merge_json(a@, b@),
        decreases json_depth(a@), 3int, 0int,
    {
        match (Self::member_str_of(a, "type"), Self::member_str_of(b, "type")) {
            (Some(ta), Some(tb)) => {
                if crate::text::str_eq(ta.as_str(), tb.as_str()) {
                    if crate::text::str_eq(ta.as_str(), "object") {
                        self.merge_object_schemas(a, b)
                    } else if crate::text::str_eq(ta.as_str(), "array") {
                        self.merge_array_schemas(a, b)
                    } else {
                        a.copy()
                    }
                } else {
                    let both = vec![a.copy(), b.copy()];
                    proof { lemma_iviews(both@); }
                    assert(both@.map_values(|v: JsonValue| v@) =~= seq![a@, b@]);
                    let ms = vec![(String::from_str("oneOf"), JsonValue::Array(both))];
                    assert(mviews(ms@) =~= seq![("oneOf"@, Json::Array(seq![a@, b@]))]);
                    jobj(ms)
                }
            },
            _ => a.copy(),
        }
    }

    /// The properties of an object schema.
    fn props_of_exec(v: &JsonValue) -> (r: Option<&Vec<(String, JsonValue)>>)
        ensures
            match r {
                Some(ps) => props_of(v@) == mviews(ps@),
                None => props_of(v@) == Seq::<(Seq<char>, Json)>::empty(),
            },
    {
        match v.get("properties") {
            Some(JsonValue::Object(ps)) => {
                proof { lemma_mviews(ps@); }
                Some(ps)
            },
            _ => None,
        }
    }

    /// The names an object schema requires.
    fn required_of_exec(v: &JsonValue) -> (r: Vec<String>)
        ensures
            crate::text::views_of(r@) == required_of(v@),
    {
        let mut r: Vec<String> = Vec::new();
        match v.get("required") {
            Some(JsonValue::Array(items)) => {
                proof { lemma_iviews(items@); lemma_view_items_len(items@); }
                let ghost vi = view_items(items@);
                let mut k: usize = 0;
                assert(crate::text::views_of(r@) =~= Seq::<Seq<char>>::empty());
                while k < items.len()
                    invariant
                        k <= items@.len(),
                        vi == view_items(items@),
                        vi == items@.map_values(|x: JsonValue| x@),
                        crate::text::views_of(r@) == string_items(vi, k as int),
                    decreases items.len() - k,
                {
                    match &items[k] {
                        JsonValue::String(s) => {
                            let ghost before = r@;
                            r.push(s.clone());
                            assert(crate::text::views_of(r@) =~= crate::text::views_of(before).push(s@));
                        },
                        _ => {},
                    }
                    k = k + 1;
                }
            },
            _ => {},
        }
        r
    }

    /// Two object schemas merged.
    fn merge_object_schemas(&self, a: &JsonValue, b: &JsonValue) -> (r: JsonValue)
        ensures
            r@ == merge_objects(a@, b@),
        decreases json_depth(a@), 2int, 0int,
    {
        let ghost pa_all = props_of(a@);
        let mut pam: Vec<(String, JsonValue)> = Vec::new();
        let mut acc: Vec<(String, JsonValue)> = Vec::new();
        assert(mviews(pam@) =~= Seq::<(Seq<char>, Json)>::empty());
        assert(mviews(acc@) =~= Seq::<(Seq<char>, Json)>::empty());
        match Self::props_of_exec(a) {
            Some(pa) => {
                let mut k: usize = 0;
                while k < pa.len()
                    invariant
                        k <= pa@.len(),
                        pa_all == mviews(pa@),
                        mviews(pam@) == map_from(pa_all, k as int),
                        mviews(acc@) == map_from(pa_all, k as int),
                    decreases pa.len() - k,
                {
                    map_insert_exec(&mut pam, pa[k].0.clone(), pa[k].1.copy());
                    map_insert_exec(&mut acc, pa[k].0.clone(), pa[k].1.copy());
                    k = k + 1;
                }
            },
            None => {},
        }
        assert(mviews(pam@) == map_from(pa_all, pa_all.len() as int));
        let ghost pb_all = props_of(b@);
        match Self::props_of_exec(b) {
            Some(pb) => {
                let mut k: usize = 0;
                while k < pb.len()
                    invariant
                        k <= pb@.len(),
                        pb_all == mviews(pb@),
                        pa_all == props_of(a@),
                        mviews(pam@) == map_from(pa_all, pa_all.len() as int),
                        mviews(acc@) == merge_props(a@, pb_all, k as int),
                    decreases pb.len() - k,
                {
                    let key = pb[k].0.clone();
                    match lookup(&pam, key.as_str()) {
                        Some(i) => {
                            proof { lemma_prop_depth(a@, key@); }
                            let m = self.merge_schemas(&pam[i].1, &pb[k].1);
                            map_insert_exec(&mut acc, key, m);
                        },
                        None => {
                            map_insert_exec(&mut acc, key, pb[k].1.copy());
                        },
                    }
                    k = k + 1;
                }
            },
            None => {},
        }
        assert(mviews(acc@) == merge_props(a@, pb_all, pb_all.len() as int));
        let req_a = Self::required_of_exec(a);
        let req_b = Self::required_of_exec(b);
        let mut common: Vec<String> = Vec::new();
        let mut k: usize = 0;
        assert(crate::text::views_of(common@) =~= Seq::<Seq<char>>::empty());
        while k < req_a.len()
            invariant
                k <= req_a@.len(),
                crate::text::views_of(common@) == common_strs(
                    crate::text::views_of(req_a@),
                    crate::text::views_of(req_b@),
                    k as int,
                ),
            decreases req_a.len() - k,
        {
            let x = &req_a[k];
            if vec_has(&req_b, x.as_str()) && !vec_has(&common, x.as_str()) {
                let ghost before = common@;
                common.push(x.clone());
                assert(crate::text::views_of(common@) =~= crate::text::views_of(before).push(x@));
            }
            k = k + 1;
        }
        let sorted = sort_strings(&common);
        let ghost props_view = mviews(acc@);
        if sorted.len() == 0 {
            let ms = vec![(String::from_str("properties"), jobj(acc)), (String::from_str("type"), jstr("object"))];
            assert(mviews(ms@) =~= seq![("properties"@, Json::Object(props_view)), ("type"@, Json::Str("object"@))]);
            jobj(ms)
        } else {
            let mut req: Vec<JsonValue> = Vec::new();
            let mut j: usize = 0;
            while j < sorted.len()
                invariant
                    j <= sorted@.len(),
                    req@.map_values(|v: JsonValue| v@) == str_values(crate::text::views_of(sorted@)).subrange(0, j as int),
                decreases sorted.len() - j,
            {
                let ghost before = req@;
                let item = JsonValue::String(sorted[j].clone());
                req.push(item);
                assert(req@.map_values(|v: JsonValue| v@) =~= before.map_values(|v: JsonValue| v@).push(item@));
                assert(req@.map_values(|v: JsonValue| v@) =~= str_values(crate::text::views_of(sorted@)).subrange(0, j + 1));
                j = j + 1;
            }
            assert(str_values(crate::text::views_of(sorted@)).subrange(0, j as int) =~= str_values(crate::text::views_of(sorted@)));
            proof { lemma_iviews(req@); }
            let ghost rv = req@;
            let ms = vec![
                (String::from_str("properties"), jobj(acc)),
                (String::from_str("required"), JsonValue::Array(req)),
                (String::from_str("type"), jstr("object")),
            ];
            assert(mviews(ms@) =~= seq![
                ("properties"@, Json::Object(props_view)),
                ("required"@, Json::Array(view_items(rv))),
                ("type"@, Json::Str("object"@)),
            ]);
            jobj(ms)
        }
    }

    /// Two array schemas merged by their items.
    fn merge_array_schemas(&self, a: &JsonValue, b: &JsonValue) -> (r: JsonValue)
        ensures
            r@ == merge_arrays(a@, b@),
        decreases json_depth(a@), 2int, 0int,
    {
        let items: JsonValue = match (a.get("items"), b.get("items")) {
            (Some(ia), Some(ib)) => {
                proof { lemma_member_depth(a@, "items"@); }
                self.merge_schemas(ia, ib)
            },
            (Some(ia), None) => ia.copy(),
            (None, Some(ib)) => ib.copy(),
            (None, None) => {
                let none: Vec<(String, JsonValue)> = Vec::new();
                assert(mviews(none@) =~= Seq::<(Seq<char>, Json)>::empty());
                jobj(none)
            },
        };
        let ghost iv = items@;
        let ms = vec![(String::from_str("items"), items), (String::from_str("type"), jstr("array"))];
        assert(mviews(ms@) =~= seq![("items"@, iv), ("type"@, Json::Str("array"@))]);
        jobj(ms)
    }
}

/// Whether one of the strings equals `x`.
fn vec_has(v: &Vec<String>, x: &str) -> (r: bool)
    ensures
        r == crate::text::views_of(v@).contains(x@),
{
    let mut i: usize = 0;
    while i < v.len()
        invariant
            i <= v@.len(),
            forall|j: int| 0 <= j < i ==> crate::text::views_of(v@)[j] != x@,
        decreases v.len() - i,
    {
        if crate::text::str_eq(v[i].as_str(), x) {
            assert(crate::text::views_of(v@)[i as int] == x@);
            return true;
        }
        i = i + 1;
    }
    false
}


// ---------------------------------------------------------------- several samples

/// The schema inferred from several values: their schemas merged in
/// turn (an empty object for no values).
pub open spec fn infer_all(vs: Seq<Json>) -> Json {
    if vs.len() == 0 {
        Json::Object(Seq::empty())
    } else {
        infer_items(vs, vs.len() as int)
    }
}

// ---------------------------------------------------------------- what schemas admit

/// Whether a JSON value has the JSON Schema type `t`. Integers are the
/// whole numbers that fit `i64`; they are numbers too.
pub open spec fn has_json_type(v: Json, t: Seq<char>) -> bool {
    match v {
        Json::Null => t == "null"@,
        Json::Bool(_) => t == "boolean"@,
        Json::Number(is_int, _) => t == "number"@ || (is_int && t == "integer"@),
        Json::Str(_) => t == "string"@,
        Json::Array(_) => t == "array"@,
        Json::Object(_) => t == "object"@,
    }
}

/// Whether a schema's `type` keyword admits the value; a schema without
/// one admits every value.
pub open spec fn type_keyword_admits(s: Json, v: Json) -> bool {
    match member_str(s, "type"@) {
        Some(t) => has_json_type(v, t),
        None => true,
    }
}

/// Whether a schema admits a value by its `type` and `oneOf` keywords:
/// the type matches, and of the `oneOf` alternatives exactly one admits
/// the value by its type.
pub open spec fn admits_by_type(s: Json, v: Json) -> bool {
    &&& type_keyword_admits(s, v)
    &&& match s.member("oneOf"@) {
        Some(Json::Array(alts)) => exists|i: int|
            0 <= i < alts.len() && #[trigger] type_keyword_admits(alts[i], v) && forall|j: int|
                0 <= j < alts.len() && j != i ==> !type_keyword_admits(alts[j], v),
        _ => true,
    }
}

/// Looking a name up among one member.
proof fn lemma_member_of_one(x: (Seq<char>, Json), key: Seq<char>)
    ensures
        member_value(seq![x], key) == if x.0 == key { Some(x.1) } else { None::<Json> },
{
    let m = seq![x];
    assert(m.len() == 1);
    assert(m[0] == x);
    assert(m.drop_first() =~= Seq::<(Seq<char>, Json)>::empty());
    assert(member_value(m.drop_first(), key) is None);
}

/// Looking a name up among two members.
proof fn lemma_member_of_two(x: (Seq<char>, Json), y: (Seq<char>, Json), key: Seq<char>)
    ensures
        member_value(seq![x, y], key) == if x.0 == key {
            Some(x.1)
        } else if y.0 == key {
            Some(y.1)
        } else {
            None::<Json>
        },
{
    let m = seq![x, y];
    assert(m[0] == x);
    assert(m.drop_first() =~= seq![y]);
    lemma_member_of_one(y, key);
}

/// Looking a name up among three members.
proof fn lemma_member_of_three(x: (Seq<char>, Json), y: (Seq<char>, Json), z: (Seq<char>, Json), key: Seq<char>)
    ensures
        member_value(seq![x, y, z], key) == if x.0 == key {
            Some(x.1)
        } else if y.0 == key {
            Some(y.1)
        } else if z.0 == key {
            Some(z.1)
        } else {
            None::<Json>
        },
{
    let m = seq![x, y, z];
    assert(m[0] == x);
    assert(m.drop_first() =~= seq![y, z]);
    lemma_member_of_two(y, z, key);
}

/// The member names schemas are built from, told apart.
proof fn lemma_schema_keys()
    ensures
        "type"@ != "oneOf"@,
        "format"@ != "oneOf"@,
        "format"@ != "type"@,
        "items"@ != "oneOf"@,
        "items"@ != "type"@,
        "properties"@ != "oneOf"@,
        "properties"@ != "type"@,
        "required"@ != "oneOf"@,
        "required"@ != "type"@,
{
    reveal_strlit("type");
    reveal_strlit("oneOf");
    reveal_strlit("format");
    reveal_strlit("items");
    reveal_strlit("properties");
    reveal_strlit("required");
    assert("type"@.len() == 4);
    assert("oneOf"@.len() == 5);
    assert("format"@.len() == 6);
    assert("items"@.len() == 5);
    assert("properties"@.len() == 10);
    assert("required"@.len() == 8);
    assert("items"@[0] != "oneOf"@[0]);
}

/// A schema of type `t` built from members that hold no `oneOf` admits
/// exactly the values of type `t`.
proof fn lemma_typed_object(ms: Seq<(Seq<char>, Json)>, t: Seq<char>, v: Json)
    requires
        member_value(ms, "type"@) == Some(Json::Str(t)),
        member_value(ms, "oneOf"@) is None,
    ensures
        admits_by_type(Json::Object(ms), v) == has_json_type(v, t),
{
}

/// Merging two schemas that each name a type, and have no `oneOf`, gives
/// a schema that admits what either admits, where the two do not both
/// admit it under different types: merging never drops a type that a
/// sample had.
pub proof fn law_merged_schema_admits_both(a: Json, b: Json, v: Json)
    requires
        member_str(a, "type"@) is Some,
        member_str(b, "type"@) is Some,
        a.member("oneOf"@) is None,
        b.member("oneOf"@) is None,
        admits_by_type(a, v) || admits_by_type(b, v),
        member_str(a, "type"@) != member_str(b, "type"@) ==> !(admits_by_type(a, v) && admits_by_type(b, v)),
    ensures
        admits_by_type(merge_json(a, b), v),
{
    lemma_schema_keys();
    let ta = member_str(a, "type"@).unwrap();
    let tb = member_str(b, "type"@).unwrap();
    let m = merge_json(a, b);
    if ta == tb {
        if ta == "object"@ {
            let props = merge_props(a, props_of(b), props_of(b).len() as int);
            let required = sort_strs(common_strs(required_of(a), required_of(b), required_of(a).len() as int));
            let tm = ("type"@, Json::Str("object"@));
            if required.len() == 0 {
                lemma_member_of_two(("properties"@, Json::Object(props)), tm, "type"@);
                lemma_member_of_two(("properties"@, Json::Object(props)), tm, "oneOf"@);
            } else {
                let rm = ("required"@, Json::Array(str_values(required)));
                lemma_member_of_three(("properties"@, Json::Object(props)), rm, tm, "type"@);
                lemma_member_of_three(("properties"@, Json::Object(props)), rm, tm, "oneOf"@);
            }
            assert(m == merge_objects(a, b));
            assert(member_str(m, "type"@) == Some("object"@));
            assert(m.member("oneOf"@) is None);
            assert(type_keyword_admits(a, v) || type_keyword_admits(b, v));
            assert(type_keyword_admits(m, v));
            assert(admits_by_type(m, v));
        } else if ta == "array"@ {
            let items = match (a.member("items"@), b.member("items"@)) {
                (Some(ia), Some(ib)) => merge_json(ia, ib),
                (Some(ia), None) => ia,
                (None, Some(ib)) => ib,
                (None, None) => Json::Object(Seq::empty()),
            };
            let tm = ("type"@, Json::Str("array"@));
            lemma_member_of_two(("items"@, items), tm, "type"@);
            lemma_member_of_two(("items"@, items), tm, "oneOf"@);
            assert(m == merge_arrays(a, b));
            assert(member_str(m, "type"@) == Some("array"@));
            assert(m.member("oneOf"@) is None);
            assert(type_keyword_admits(m, v));
            assert(admits_by_type(m, v));
        } else {
            assert(m == a);
            assert(type_keyword_admits(a, v) == type_keyword_admits(b, v));
            assert(admits_by_type(m, v));
        }
    } else {
        let x = ("oneOf"@, Json::Array(seq![a, b]));
        lemma_member_of_one(x, "type"@);
        lemma_member_of_one(x, "oneOf"@);
        assert(m == Json::Object(seq![x]));
        assert(type_keyword_admits(m, v));
        assert(m.member("oneOf"@) == Some(Json::Array(seq![a, b])));
        let alts = seq![a, b];
        let w: int = if type_keyword_admits(a, v) { 0 } else { 1 };
        let mv = m.member("oneOf"@);
        assert(mv == Some(Json::Array(alts)));
        if let Some(Json::Array(alts2)) = mv {
            assert(alts2 =~= alts);
            assert(alts2[0] == a && alts2[1] == b);
            assert(type_keyword_admits(alts2[w], v));
            assert forall|j: int| 0 <= j < alts2.len() && j != w implies !type_keyword_admits(alts2[j], v) by {
                assert(j == 1 - w);
            }
        }
        assert(admits_by_type(m, v));
    }
}

/// The schema inferred from a value admits that value, and names its type
/// without a `oneOf`.
pub proof fn law_inferred_schema_admits_its_value(v: Json)
    ensures
        admits_by_type(infer_json(v), v),
        member_str(infer_json(v), "type"@) is Some,
        infer_json(v).member("oneOf"@) is None,
{
    lemma_schema_keys();
    match v {
        Json::Array(items) => {
            let inner = if items.len() == 0 { Json::Object(Seq::empty()) } else { infer_items(items, items.len() as int) };
            let tm = ("type"@, Json::Str("array"@));
            lemma_member_of_two(("items"@, inner), tm, "type"@);
            lemma_member_of_two(("items"@, inner), tm, "oneOf"@);
        },
        Json::Object(ms) => {
            let pm = ("properties"@, Json::Object(infer_props(ms, ms.len() as int)));
            let rm = ("required"@, Json::Array(str_values(sort_strs(member_names(ms)))));
            let tm = ("type"@, Json::Str("object"@));
            lemma_member_of_three(pm, rm, tm, "type"@);
            lemma_member_of_three(pm, rm, tm, "oneOf"@);
        },
        Json::Str(s) => {
            let tm = ("type"@, Json::Str("string"@));
            match string_format(s) {
                Some(f) => {
                    lemma_member_of_two(("format"@, Json::Str(f)), tm, "type"@);
                    lemma_member_of_two(("format"@, Json::Str(f)), tm, "oneOf"@);
                },
                None => {
                    lemma_member_of_one(tm, "type"@);
                    lemma_member_of_one(tm, "oneOf"@);
                },
            }
        },
        Json::Number(is_int, _) => {
            let t = if is_int { "integer"@ } else { "number"@ };
            lemma_member_of_one(("type"@, Json::Str(t)), "type"@);
            lemma_member_of_one(("type"@, Json::Str(t)), "oneOf"@);
        },
        Json::Bool(_) => {
            lemma_member_of_one(("type"@, Json::Str("boolean"@)), "type"@);
            lemma_member_of_one(("type"@, Json::Str("boolean"@)), "oneOf"@);
        },
        Json::Null => {
            lemma_member_of_one(("type"@, Json::Str("null"@)), "type"@);
            lemma_member_of_one(("type"@, Json::Str("null"@)), "oneOf"@);
        },
    }
}

/// Inferring a schema from two samples admits both of them, where the
/// schema of either sample alone does not admit the other under a
/// different type.
pub proof fn law_two_samples_are_admitted(x: Json, y: Json)
    requires
        member_str(infer_json(x), "type"@) != member_str(infer_json(y), "type"@) ==> !admits_by_type(infer_json(y), x)
            && !admits_by_type(infer_json(x), y),
    ensures
        admits_by_type(infer_all(seq![x, y]), x),
        admits_by_type(infer_all(seq![x, y]), y),
{
    law_inferred_schema_admits_its_value(x);
    law_inferred_schema_admits_its_value(y);
    let s = seq![x, y];
    assert(infer_items(s, 1) == infer_json(x));
    assert(infer_all(s) == merge_json(infer_json(x), infer_json(y)));
    law_merged_schema_admits_both(infer_json(x), infer_json(y), x);
    law_merged_schema_admits_both(infer_json(x), infer_json(y), y);
}

// ---------------------------------------------------------------- OpenAPI form

/// A schema in OpenAPI form: objects rebuilt as maps, with the schemas
/// under `properties`, `items` and `oneOf` converted in turn, and a
/// `properties` that is not an object or a `oneOf` that is not an array
/// left out.
pub open spec fn convert_json(v: Json) -> Json
    decreases v, 0int, 0int,
{
    match v {
        Json::Object(ms) => Json::Object(convert_members(ms, ms.len() as int)),
        _ => v,
    }
}

/// The first `n` members of a schema object converted.
pub open spec fn convert_members(ms: Seq<(Seq<char>, Json)>, n: int) -> Seq<(Seq<char>, Json)>
    decreases ms, 1int, n,
{
    if n <= 0 || n > ms.len() {
        Seq::empty()
    } else {
        let acc = convert_members(ms, n - 1);
        let k = ms[n - 1].0;
        let v = ms[n - 1].1;
        if k == "properties"@ {
            match v {
                Json::Object(props) => {
                    proof {
                        assert(decreases_to!(ms => ms[n - 1]));
                        assert(decreases_to!(ms[n - 1] => ms[n - 1].1));
                    }
                    map_insert(acc, k, Json::Object(convert_props(props, props.len() as int)))
                },
                _ => acc,
            }
        } else if k == "items"@ {
            map_insert(acc, k, convert_json(v))
        } else if k == "oneOf"@ {
            match v {
                Json::Array(arr) => map_insert(acc, k, Json::Array(convert_list(arr, arr.len() as int))),
                _ => acc,
            }
        } else {
            map_insert(acc, k, v)
        }
    }
}

/// The first `n` properties with their schemas converted, as a map.
pub open spec fn convert_props(props: Seq<(Seq<char>, Json)>, n: int) -> Seq<(Seq<char>, Json)>
    decreases props, 1int, n,
{
    if n <= 0 || n > props.len() {
        Seq::empty()
    } else {
        map_insert(convert_props(props, n - 1), props[n - 1].0, convert_json(props[n - 1].1))
    }
}

/// The first `n` schemas converted.
pub open spec fn convert_list(arr: Seq<Json>, n: int) -> Seq<Json>
    decreases arr, 1int, n,
{
    if n <= 0 || n > arr.len() {
        Seq::empty()
    } else {
        convert_list(arr, n - 1).push(convert_json(arr[n - 1]))
    }
}

impl SchemaInferrer {
    /// The schema inferred from several values, with the first few as
    /// examples.
    pub fn infer(&self, values: &Vec<JsonValue>) -> (r: InferredSchema)
        ensures
            r.schema@ == infer_all(values@.map_values(|v: JsonValue| v@)),
            r.examples@.map_values(|v: JsonValue| v@) == values@.map_values(|v: JsonValue| v@).subrange(
                0,
                if values@.len() < self.max_examples { values@.len() as int } else { self.max_examples as int },
            ),
            r.sample_count == values@.len(),
    {
        proof { lemma_iviews(values@); lemma_view_items_len(values@); }
        let schema = if values.len() == 0 {
            let none: Vec<(String, JsonValue)> = Vec::new();
            assert(mviews(none@) =~= Seq::<(Seq<char>, Json)>::empty());
            jobj(none)
        } else {
            self.infer_items(values)
        };
        let n = if values.len() < self.max_examples { values.len() } else { self.max_examples };
        let mut examples: Vec<JsonValue> = Vec::new();
        let mut k: usize = 0;
        while k < n
            invariant
                k <= n <= values@.len(),
                examples@.map_values(|v: JsonValue| v@) == values@.map_values(|v: JsonValue| v@).subrange(0, k as int),
            decreases n - k,
        {
            let ghost before = examples@;
            let e = values[k].copy();
            examples.push(e);
            assert(examples@.map_values(|v: JsonValue| v@) =~= before.map_values(|v: JsonValue| v@).push(e@));
            assert(examples@.map_values(|v: JsonValue| v@) =~= values@.map_values(|v: JsonValue| v@).subrange(0, k + 1));
            k = k + 1;
        }
        InferredSchema { schema, examples, sample_count: values.len() }
    }

    /// A schema in OpenAPI form.
    pub fn to_openapi_schema(&self, schema: &JsonValue) -> (r: JsonValue)
        ensures
            r@ == convert_json(schema@),
    {
        Self::convert_to_openapi(schema)
    }

    /// A schema in OpenAPI form.
    #[verifier::loop_isolation(false)]
    fn convert_to_openapi(schema: &JsonValue) -> (r: JsonValue)
        ensures
            r@ == convert_json(schema@),
        decreases schema, 0int,
    {
        match schema {
            JsonValue::Object(ms) => {
                proof {
                    assert(decreases_to!(*schema => (*schema)->Object_0));
                    lemma_mviews(ms@);
                }
                let ghost vm = mviews(ms@);
                let mut out: Vec<(String, JsonValue)> = Vec::new();
                let mut k: usize = 0;
                assert(mviews(out@) =~= Seq::<(Seq<char>, Json)>::empty());
                while k < ms.len()
                    invariant
                        k <= ms@.len(),
                        vm == mviews(ms@),
                        vm.len() == ms@.len(),
                        mviews(out@) == convert_members(vm, k as int),
                    decreases ms.len() - k,
                {
                    proof {
                        assert(decreases_to!(*ms => ms[k as int]));
                        assert(decreases_to!(ms[k as int] => ms[k as int].1));
                    }
                    let key = &ms[k].0;
                    let value = &ms[k].1;
                    if crate::text::str_eq(key.as_str(), "properties") {
                        match value {
                            JsonValue::Object(props) => {
                                proof {
                                    assert(decreases_to!(*value => (*value)->Object_0));
                                    lemma_mviews(props@);
                                    lemma_view_members_len(props@);
                                }
                                let converted = Self::convert_props_exec(props);
                                map_insert_exec(&mut out, key.clone(), jobj(converted));
                            },
                            _ => {},
                        }
                    } else if crate::text::str_eq(key.as_str(), "items") {
                        map_insert_exec(&mut out, key.clone(), Self::convert_to_openapi(value));
                    } else if crate::text::str_eq(key.as_str(), "oneOf") {
                        match value {
                            JsonValue::Array(arr) => {
                                proof {
                                    assert(decreases_to!(*value => (*value)->Array_0));
                                    lemma_iviews(arr@);
                                    lemma_view_items_len(arr@);
                                }
                                let converted = Self::convert_list_exec(arr);
                                proof { lemma_iviews(converted@); }
                                let ghost cv = converted@;
                                map_insert_exec(&mut out, key.clone(), JsonValue::Array(converted));
                            },
                            _ => {},
                        }
                    } else {
                        map_insert_exec(&mut out, key.clone(), value.copy());
                    }
                    k = k + 1;
                }
                jobj(out)
            },
            _ => schema.copy(),
        }
    }

    /// Properties with their schemas converted, as a map.
    fn convert_props_exec(props: &Vec<(String, JsonValue)>) -> (r: Vec<(String, JsonValue)>)
        ensures
            mviews(r@) == convert_props(mviews(props@), props@.len() as int),
        decreases props, 1int,
    {
        let mut out: Vec<(String, JsonValue)> = Vec::new();
        let mut k: usize = 0;
        assert(mviews(out@) =~= Seq::<(Seq<char>, Json)>::empty());
        while k < props.len()
            invariant
                k <= props@.len(),
                mviews(out@) == convert_props(mviews(props@), k as int),
            decreases props.len() - k,
        {
            proof {
                assert(decreases_to!(*props => props[k as int]));
                assert(decreases_to!(props[k as int] => props[k as int].1));
            }
            let c = Self::convert_to_openapi(&props[k].1);
            map_insert_exec(&mut out, props[k].0.clone(), c);
            k = k + 1;
        }
        out
    }

    /// Schemas converted.
    fn convert_list_exec(arr: &Vec<JsonValue>) -> (r: Vec<JsonValue>)
        ensures
            r@.map_values(|v: JsonValue| v@) == convert_list(arr@.map_values(|v: JsonValue| v@), arr@.len() as int),
        decreases arr, 1int,
    {
        let ghost av = arr@.map_values(|v: JsonValue| v@);
        let mut out: Vec<JsonValue> = Vec::new();
        let mut k: usize = 0;
        assert(out@.map_values(|v: JsonValue| v@) =~= Seq::<Json>::empty());
        while k < arr.len()
            invariant
                k <= arr@.len(),
                av == arr@.map_values(|v: JsonValue| v@),
                out@.map_values(|v: JsonValue| v@) == convert_list(av, k as int),
            decreases arr.len() - k,
        {
            proof { assert(decreases_to!(*arr => arr[k as int])); }
            let ghost before = out@;
            let c = Self::convert_to_openapi(&arr[k]);
            out.push(c);
            assert(out@.map_values(|v: JsonValue| v@) =~= before.map_values(|v: JsonValue| v@).push(c@));
            k = k + 1;
        }
        out
    }
}

} // verus!
