//! Span attributes and the reading of typed values from them.

use vstd::prelude::*;
use base64::Engine;
use crate::json::{Json, JsonNumber, JsonValue};
use crate::text::{decimal_int, str_eq};
use crate::tracer::inference::schema_inferrer::{jobj, lemma_iviews, map_insert, map_insert_exec, mviews};

verus! {

/// The value of a span attribute.
pub enum AttrValue {
    /// A value with no kind set.
    Empty,
    Str(String),
    Bool(bool),
    Int(i64),
    /// A double: the text a JSON writer gives it when it is finite, and
    /// `None` when it is not.
    Double(Option<String>),
    Array(Vec<AttrValue>),
    KvList(Vec<KeyValue>),
    Bytes(Vec<u8>),
}

/// A span attribute: a key and, when set, its value.
pub struct KeyValue {
    pub key: String,
    pub value: Option<AttrValue>,
}

/// The first position at or after `from` of an attribute named `key`.
pub open spec fn first_key(attrs: Seq<KeyValue>, key: Seq<char>, from: int) -> Option<int>
    decreases attrs.len() - from,
{
    if from < 0 || from >= attrs.len() {
        None
    } else if attrs[from].key@ == key {
        Some(from)
    } else {
        first_key(attrs, key, from + 1)
    }
}

/// A position found by `first_key` lies in range.
pub proof fn lemma_first_key(attrs: Seq<KeyValue>, key: Seq<char>, from: int)
    requires
        first_key(attrs, key, from) is Some,
    ensures
        from <= first_key(attrs, key, from).unwrap() < attrs.len(),
    decreases attrs.len() - from,
{
    if !(from < 0 || from >= attrs.len()) && attrs[from].key@ != key {
        lemma_first_key(attrs, key, from + 1);
    }
}

/// The value of the first attribute named `key`, when there is one.
pub open spec fn attr_value(attrs: Seq<KeyValue>, key: Seq<char>) -> Option<AttrValue> {
    match first_key(attrs, key, 0) {
        Some(i) => attrs[i].value,
        None => None,
    }
}

/// The string held by the first attribute named `key`.
pub open spec fn attr_string(attrs: Seq<KeyValue>, key: Seq<char>) -> Option<Seq<char>> {
    match attr_value(attrs, key) {
        Some(AttrValue::Str(s)) => Some(s@),
        _ => None,
    }
}

/// The integer held by the first attribute named `key`.
pub open spec fn attr_int(attrs: Seq<KeyValue>, key: Seq<char>) -> Option<i64> {
    match attr_value(attrs, key) {
        Some(AttrValue::Int(i)) => Some(i),
        _ => None,
    }
}

/// The boolean held by the first attribute named `key`.
pub open spec fn attr_bool(attrs: Seq<KeyValue>, key: Seq<char>) -> Option<bool> {
    match attr_value(attrs, key) {
        Some(AttrValue::Bool(b)) => Some(b),
        _ => None,
    }
}

/// Reads typed values from span attributes.
pub struct AttributeExtractor;

impl AttributeExtractor {
    /// The position of the first attribute named `key`.
    fn find(attributes: &[KeyValue], key: &str) -> (r: Option<usize>)
        ensures
            match r {
                Some(i) => first_key(attributes@, key@, 0) == Some(i as int),
                None => first_key(attributes@, key@, 0) is None,
            },
    {
        let mut i: usize = 0;
        while i < attributes.len()
            invariant
                i <= attributes@.len(),
                first_key(attributes@, key@, 0) == first_key(attributes@, key@, i as int),
            decreases attributes.len() - i,
        {
            if str_eq(attributes[i].key.as_str(), key) {
                return Some(i);
            }
            i = i + 1;
        }
        None
    }

    /// The string held by the first attribute named `key`; `None` when
    /// there is no such attribute or it holds another kind of value.
    pub fn get_string(attributes: &[KeyValue], key: &str) -> (r: Option<String>)
        ensures
            match r {
                Some(s) => attr_string(attributes@, key@) == Some(s@),
                None => attr_string(attributes@, key@) is None,
            },
    {
        match Self::find(attributes, key) {
            Some(i) => {
                proof { lemma_first_key(attributes@, key@, 0); }
                match &attributes[i].value {
                    Some(AttrValue::Str(s)) => Some(s.clone()),
                    _ => None,
                }
            },
            None => None,
        }
    }

    /// The integer held by the first attribute named `key`.
    pub fn get_int(attributes: &[KeyValue], key: &str) -> (r: Option<i64>)
        ensures
            r == attr_int(attributes@, key@),
    {
        match Self::find(attributes, key) {
            Some(i) => {
                proof { lemma_first_key(attributes@, key@, 0); }
                match &attributes[i].value {
                    Some(AttrValue::Int(v)) => Some(*v),
                    _ => None,
                }
            },
            None => None,
        }
    }

    /// The boolean held by the first attribute named `key`.
    pub fn get_bool(attributes: &[KeyValue], key: &str) -> (r: Option<bool>)
        ensures
            r == attr_bool(attributes@, key@),
    {
        match Self::find(attributes, key) {
            Some(i) => {
                proof { lemma_first_key(attributes@, key@, 0); }
                match &attributes[i].value {
                    Some(AttrValue::Bool(b)) => Some(*b),
                    _ => None,
                }
            },
            None => None,
        }
    }
}


// ---------------------------------------------------------------- values as JSON

/// The character of a base64 digit.
pub open spec fn b64_char(n: int) -> char {
    if n < 26 {
        (65 + n) as char
    } else if n < 52 {
        (97 + n - 26) as char
    } else if n < 62 {
        (48 + n - 52) as char
    } else if n == 62 {
        '+'
    } else {
        '/'
    }
}

/// Bytes in standard base64, padded with `=`.
pub open spec fn base64_text(b: Seq<u8>) -> Seq<char>
    decreases b.len(),
{
    if b.len() == 0 {
        Seq::empty()
    } else if b.len() == 1 {
        let x = b[0] as int;
        seq![b64_char(x / 4), b64_char((x % 4) * 16), '=', '=']
    } else if b.len() == 2 {
        let x = b[0] as int;
        let y = b[1] as int;
        seq![b64_char(x / 4), b64_char((x % 4) * 16 + y / 16), b64_char((y % 16) * 4), '=']
    } else {
        let x = b[0] as int;
        let y = b[1] as int;
        let z = b[2] as int;
        seq![b64_char(x / 4), b64_char((x % 4) * 16 + y / 16), b64_char((y % 16) * 4 + z / 64), b64_char(z % 64)]
            + base64_text(b.subrange(3, b.len() as int))
    }
}

/// `Engine::encode` of the `base64` crate with its standard engine: the
/// bytes in standard base64, padded with `=`.
#[verifier::external_body]
fn base64_encode(bytes: &[u8]) -> (r: String)
    ensures
        r@ == base64_text(bytes@),
{
    base64::engine::general_purpose::STANDARD.encode(bytes)
}

/// An attribute value as JSON: a double that is not finite and a value of
/// no kind as `null`, bytes as base64 text, a key-value list as an object
/// of its members that have a value.
pub open spec fn attr_json(v: AttrValue) -> Json
    decreases v, 0int,
{
    match v {
        AttrValue::Empty => Json::Null,
        AttrValue::Str(s) => Json::Str(s@),
        AttrValue::Bool(b) => Json::Bool(b),
        AttrValue::Int(i) => Json::Number(true, decimal_int(i as int)),
        AttrValue::Double(Some(t)) => Json::Number(false, t@),
        AttrValue::Double(None) => Json::Null,
        AttrValue::Array(items) => Json::Array(attr_items(items@, items@.len() as int)),
        AttrValue::KvList(kvs) => Json::Object(kv_members(kvs@, kvs@.len() as int)),
        AttrValue::Bytes(b) => Json::Str(base64_text(b@)),
    }
}

/// The first `n` values as JSON.
pub open spec fn attr_items(items: Seq<AttrValue>, n: int) -> Seq<Json>
    decreases items, 1int, n,
{
    if n <= 0 || n > items.len() {
        Seq::empty()
    } else {
        proof {
            assert(decreases_to!(items => items[n - 1]));
        }
        attr_items(items, n - 1).push(attr_json(items[n - 1]))
    }
}

/// The members of the first `n` attributes that have a value, as a map
/// (a later attribute of the same name replaces an earlier one).
pub open spec fn kv_members(kvs: Seq<KeyValue>, n: int) -> Seq<(Seq<char>, Json)>
    decreases kvs, 1int, n,
{
    if n <= 0 || n > kvs.len() {
        Seq::empty()
    } else {
        match kvs[n - 1].value {
            Some(v) => {
                proof {
                    assert(decreases_to!(kvs => kvs[n - 1]));
                    assert(decreases_to!(kvs[n - 1] => kvs[n - 1].value));
                }
                map_insert(kv_members(kvs, n - 1), kvs[n - 1].key@, attr_json(v))
            },
            None => kv_members(kvs, n - 1),
        }
    }
}

impl AttributeExtractor {
    /// An attribute value as JSON.
    #[verifier::loop_isolation(false)]
    pub fn any_value_to_json(value: &AttrValue) -> (r: JsonValue)
        ensures
            r@ == attr_json(*value),
        decreases value,
    {
        match value {
            AttrValue::Empty => JsonValue::Null,
            AttrValue::Str(s) => JsonValue::String(s.clone()),
            AttrValue::Bool(b) => JsonValue::Bool(*b),
            AttrValue::Int(i) => JsonValue::Number(JsonNumber::Int(*i)),
            AttrValue::Double(Some(t)) => JsonValue::Number(JsonNumber::Float(t.clone())),
            AttrValue::Double(None) => JsonValue::Null,
            AttrValue::Array(items) => {
                let mut out: Vec<JsonValue> = Vec::new();
                let mut k: usize = 0;
                while k < items.len()
                    invariant
                        k <= items@.len(),
                        out@.map_values(|v: JsonValue| v@) == attr_items(items@, k as int),
                    decreases items.len() - k,
                {
                    proof {
                        assert(decreases_to!(*value => (*value)->Array_0));
                        assert(decreases_to!((*value)->Array_0 => items@[k as int]));
                    }
                    let ghost before = out@;
                    let x = Self::any_value_to_json(&items[k]);
                    out.push(x);
                    assert(out@.map_values(|v: JsonValue| v@) =~= before.map_values(|v: JsonValue| v@).push(x@));
                    k = k + 1;
                }
                proof { lemma_iviews(out@); }
                JsonValue::Array(out)
            },
            AttrValue::KvList(kvs) => {
                let mut out: Vec<(String, JsonValue)> = Vec::new();
                assert(mviews(out@) =~= Seq::<(Seq<char>, Json)>::empty());
                let mut k: usize = 0;
                while k < kvs.len()
                    invariant
                        k <= kvs@.len(),
                        mviews(out@) == kv_members(kvs@, k as int),
                    decreases kvs.len() - k,
                {
                    match &kvs[k].value {
                        Some(v) => {
                            proof {
                                assert(decreases_to!(*value => (*value)->KvList_0));
                                assert(decreases_to!((*value)->KvList_0 => kvs@[k as int]));
                                assert(decreases_to!(kvs@[k as int] => kvs@[k as int].value));
                            }
                            let x = Self::any_value_to_json(v);
                            map_insert_exec(&mut out, kvs[k].key.clone(), x);
                        },
                        None => {},
                    }
                    k = k + 1;
                }
                jobj(out)
            },
            AttrValue::Bytes(b) => JsonValue::String(base64_encode(b.as_slice())),
        }
    }
}

} // verus!
