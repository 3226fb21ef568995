//! JSON values as the library reads them: payloads, outputs, inputs and
//! inferred schemas.

use vstd::prelude::*;

verus! {

broadcast use vstd::std_specs::vec::group_vec_axioms;

} // verus!
use crate::text::{str_eq, decimal, decimal_int, decimal_i64, decimal_u64};

verus! {

/// A JSON number: an integer that fits `i64`, a larger non-negative
/// integer, or any other number kept in its decimal text form.
#[derive(Clone)]
pub enum JsonNumber {
    Int(i64),
    UInt(u64),
    Float(String),
}

/// A JSON value. Object members keep their order.
pub enum JsonValue {
    Null,
    Bool(bool),
    Number(JsonNumber),
    String(String),
    Array(Vec<JsonValue>),
    Object(Vec<(String, JsonValue)>),
}

impl JsonNumber {
    /// The text that a JSON serializer writes for this number.
    pub open spec fn text(self) -> Seq<char> {
        match self {
            JsonNumber::Int(i) => decimal_int(i as int),
            JsonNumber::UInt(u) => decimal(u as nat),
            JsonNumber::Float(s) => s@,
        }
    }

    /// Whether the number is an integer that fits `i64`.
    pub open spec fn spec_is_i64(self) -> bool {
        match self {
            JsonNumber::Int(_) => true,
            JsonNumber::UInt(u) => u <= i64::MAX,
            JsonNumber::Float(_) => false,
        }
    }

    /// Whether the number is an integer that fits `i64`.
    pub fn is_i64(&self) -> (r: bool)
        ensures
            r == self.spec_is_i64(),
    {
        match self {
            JsonNumber::Int(_) => true,
            JsonNumber::UInt(u) => *u <= 9223372036854775807u64,
            JsonNumber::Float(_) => false,
        }
    }

    /// The text that a JSON serializer writes for this number.
    pub fn to_text(&self) -> (s: String)
        ensures
            s@ == self.text(),
    {
        match self {
            JsonNumber::Int(i) => decimal_i64(*i),
            JsonNumber::UInt(u) => decimal_u64(*u),
            JsonNumber::Float(f) => f.clone(),
        }
    }

    /// An equal copy.
    pub fn copy(&self) -> (r: Self)
        ensures
            r == *self,
    {
        match self {
            JsonNumber::Int(i) => JsonNumber::Int(*i),
            JsonNumber::UInt(u) => JsonNumber::UInt(*u),
            JsonNumber::Float(f) => JsonNumber::Float(f.clone()),
        }
    }
}

/// The mathematical form of a JSON value.
pub enum Json {
    Null,
    Bool(bool),
    /// Whether the number is an integer that fits `i64`, and its text.
    Number(bool, Seq<char>),
    Str(Seq<char>),
    Array(Seq<Json>),
    Object(Seq<(Seq<char>, Json)>),
}

/// The value of the first member of `members` named `key`.
pub open spec fn member_value(members: Seq<(Seq<char>, Json)>, key: Seq<char>) -> Option<Json>
    decreases members.len(),
{
    if members.len() == 0 {
        None
    } else if members[0].0 == key {
        Some(members[0].1)
    } else {
        member_value(members.drop_first(), key)
    }
}

/// Views of a sequence of values.
pub open spec fn view_items(items: Seq<JsonValue>) -> Seq<Json>
    decreases items,
{
    if items.len() == 0 {
        Seq::empty()
    } else {
        view_items(items.drop_last()).push(view_json(items.last()))
    }
}

/// Views of a sequence of object members.
pub open spec fn view_members(members: Seq<(String, JsonValue)>) -> Seq<(Seq<char>, Json)>
    decreases members,
{
    if members.len() == 0 {
        Seq::empty()
    } else {
        view_members(members.drop_last()).push((members.last().0@, view_json(members.last().1)))
    }
}

/// The mathematical form of a JSON value.
pub open spec fn view_json(v: JsonValue) -> Json
    decreases v,
{
    match v {
        JsonValue::Null => Json::Null,
        JsonValue::Bool(b) => Json::Bool(b),
        JsonValue::Number(n) => Json::Number(n.spec_is_i64(), n.text()),
        JsonValue::String(s) => Json::Str(s@),
        JsonValue::Array(items) => Json::Array(view_items(items@)),
        JsonValue::Object(members) => Json::Object(view_members(members@)),
    }
}

impl Clone for JsonValue {
    /// An equal copy.
    fn clone(&self) -> (r: Self)
        ensures
            r@ == self@,
    {
        self.copy()
    }
}

impl View for JsonValue {
    type V = Json;

    open spec fn view(&self) -> Json {
        view_json(*self)
    }
}

impl Json {
    /// The string held by a string value.
    pub open spec fn string_view(self) -> Option<Seq<char>> {
        match self {
            Json::Str(s) => Some(s),
            _ => None,
        }
    }

    /// The member named `key` of an object value.
    pub open spec fn member(self, key: Seq<char>) -> Option<Json> {
        match self {
            Json::Object(members) => member_value(members, key),
            _ => None,
        }
    }
}

impl JsonValue {

    /// The string held by a string value.
    pub fn as_str(&self) -> (r: Option<&String>)
        ensures
            match r {
                Some(s) => self@.string_view() == Some(s@),
                None => self@.string_view() is None,
            },
    {
        match self {
            JsonValue::String(s) => Some(s),
            _ => None,
        }
    }

    /// The member named `key` of an object value.
    #[verifier::loop_isolation(false)]
    pub fn get(&self, key: &str) -> (r: Option<&JsonValue>)
        ensures
            match r {
                Some(v) => self@.member(key@) == Some(v@),
                None => self@.member(key@) is None,
            },
    {
        match self {
            JsonValue::Object(members) => {
                let mut i: usize = 0;
                proof {
                    lemma_view_members_len(members@);
                    let vm = view_members(members@);
                    assert(vm.subrange(0, vm.len() as int) =~= vm);
                }
                while i < members.len()
                    invariant
                        i <= members@.len(),
                        member_value(view_members(members@), key@) == member_value(
                            view_members(members@).subrange(i as int, members@.len() as int),
                            key@,
                        ),
                        view_members(members@).len() == members@.len(),
                    decreases members.len() - i,
                {
                    let ghost vm = view_members(members@);
                    assert(vm.subrange(i as int, vm.len() as int).drop_first() =~= vm.subrange(i + 1, vm.len() as int));
                    proof { lemma_view_members_index(members@, i as int); }
                    assert(vm.subrange(i as int, vm.len() as int)[0] == vm[i as int]);
                    if str_eq(members[i].0.as_str(), key) {
                        assert(self@ == Json::Object(vm));
                        assert(member_value(vm.subrange(i as int, vm.len() as int), key@) == Some(view_json(members[i as int].1)));
                        return Some(&members[i].1);
                    }
                    i = i + 1;
                }
                None
            },
            _ => None,
        }
    }

    /// An equal copy.
    #[verifier::loop_isolation(false)]
    pub fn copy(&self) -> (r: Self)
        ensures
            r@ == self@,
        decreases self,
    {
        match self {
            JsonValue::Null => JsonValue::Null,
            JsonValue::Bool(b) => JsonValue::Bool(*b),
            JsonValue::Number(n) => JsonValue::Number(n.copy()),
            JsonValue::String(s) => JsonValue::String(s.clone()),
            JsonValue::Array(items) => {
                let mut out: Vec<JsonValue> = Vec::new();
                let mut i: usize = 0;
                while i < items.len()
                    invariant
                        i <= items@.len(),
                        view_items(out@) == view_items(items@.subrange(0, i as int)),
                    decreases items.len() - i,
                {
                    assert(items@.subrange(0, i + 1).drop_last() =~= items@.subrange(0, i as int));
                    let ghost old_out = out@;
                    proof {
                        assert(decreases_to!(*self => (*self)->Array_0));
                        assert(decreases_to!(*items => items[i as int]));
                    }
                    out.push(items[i].copy());
                    assert(out@.drop_last() =~= old_out);
                    i = i + 1;
                }
                assert(items@.subrange(0, items@.len() as int) =~= items@);
                JsonValue::Array(out)
            },
            JsonValue::Object(members) => {
                let mut out: Vec<(String, JsonValue)> = Vec::new();
                let mut i: usize = 0;
                while i < members.len()
                    invariant
                        i <= members@.len(),
                        view_members(out@) == view_members(members@.subrange(0, i as int)),
                    decreases members.len() - i,
                {
                    assert(members@.subrange(0, i + 1).drop_last() =~= members@.subrange(0, i as int));
                    let ghost old_out = out@;
                    proof {
                        assert(decreases_to!(*self => (*self)->Object_0));
                        assert(decreases_to!(*members => members[i as int]));
                        assert(decreases_to!(members[i as int] => members[i as int].1));
                    }
                    out.push((members[i].0.clone(), members[i].1.copy()));
                    assert(out@.drop_last() =~= old_out);
                    i = i + 1;
                }
                assert(members@.subrange(0, members@.len() as int) =~= members@);
                JsonValue::Object(out)
            },
        }
    }
}

/// Views of members keep the number of members and each member's name and value.
pub proof fn lemma_view_members_index(members: Seq<(String, JsonValue)>, i: int)
    requires
        0 <= i < members.len(),
    ensures
        view_members(members).len() == members.len(),
        view_members(members)[i] == (members[i].0@, view_json(members[i].1)),
    decreases members.len(),
{
    lemma_view_members_len(members);
    if i < members.len() - 1 {
        lemma_view_members_index(members.drop_last(), i);
    }
}

/// Views of members keep the number of members.
pub proof fn lemma_view_members_len(members: Seq<(String, JsonValue)>)
    ensures
        view_members(members).len() == members.len(),
    decreases members.len(),
{
    if members.len() > 0 {
        lemma_view_members_len(members.drop_last());
    }
}

/// Views of items keep the number of items and each item's view.
pub proof fn lemma_view_items_index(items: Seq<JsonValue>, i: int)
    requires
        0 <= i < items.len(),
    ensures
        view_items(items).len() == items.len(),
        view_items(items)[i] == view_json(items[i]),
    decreases items.len(),
{
    lemma_view_items_len(items);
    if i < items.len() - 1 {
        lemma_view_items_index(items.drop_last(), i);
    }
}

/// Views of items keep the number of items.
pub proof fn lemma_view_items_len(items: Seq<JsonValue>)
    ensures
        view_items(items).len() == items.len(),
    decreases items.len(),
{
    if items.len() > 0 {
        lemma_view_items_len(items.drop_last());
    }
}


/// How deeply arrays and objects nest in a value.
pub open spec fn json_depth(v: Json) -> nat
    decreases v, 0int,
{
    match v {
        Json::Array(items) => 1 + items_depth(items, items.len() as int),
        Json::Object(members) => 1 + members_depth(members, members.len() as int),
        _ => 0,
    }
}

/// The greatest depth among the first `k` items.
pub open spec fn items_depth(items: Seq<Json>, k: int) -> nat
    decreases items, k,
{
    if k <= 0 || k > items.len() {
        0
    } else {
        let d = json_depth(items[k - 1]);
        let r = items_depth(items, k - 1);
        if d > r { d } else { r }
    }
}

/// The greatest depth among the values of the first `k` members.
pub open spec fn members_depth(members: Seq<(Seq<char>, Json)>, k: int) -> nat
    decreases members, k,
{
    if k <= 0 || k > members.len() {
        0
    } else {
        let d = json_depth(members[k - 1].1);
        let r = members_depth(members, k - 1);
        if d > r { d } else { r }
    }
}

/// An item's depth is at most the greatest depth among the first `k` items.
pub proof fn lemma_items_depth(items: Seq<Json>, k: int, j: int)
    requires
        0 <= j < k <= items.len(),
    ensures
        json_depth(items[j]) <= items_depth(items, k),
    decreases k,
{
    if j < k - 1 {
        lemma_items_depth(items, k - 1, j);
    }
}

/// A member's depth is at most the greatest depth among the first `k` members.
pub proof fn lemma_members_depth(members: Seq<(Seq<char>, Json)>, k: int, j: int)
    requires
        0 <= j < k <= members.len(),
    ensures
        json_depth(members[j].1) <= members_depth(members, k),
    decreases k,
{
    if j < k - 1 {
        lemma_members_depth(members, k - 1, j);
    }
}

/// The value's depth leaves room for the indentation it is written with.
pub open spec fn depth_fits(v: JsonValue) -> bool {
    json_depth(v@) < usize::MAX
}


/// The position of the member that `member_value` finds.
pub proof fn lemma_member_index(ms: Seq<(Seq<char>, Json)>, key: Seq<char>) -> (j: int)
    requires
        member_value(ms, key) is Some,
    ensures
        0 <= j < ms.len(),
        ms[j].1 == member_value(ms, key).unwrap(),
    decreases ms.len(),
{
    if ms[0].0 == key {
        0
    } else {
        let j = lemma_member_index(ms.drop_first(), key);
        j + 1
    }
}

/// A member of an object is less deep than the object.
pub proof fn lemma_member_depth(v: Json, key: Seq<char>)
    requires
        v.member(key) is Some,
    ensures
        json_depth(v.member(key).unwrap()) < json_depth(v),
{
    match v {
        Json::Object(ms) => {
            let j = lemma_member_index(ms, key);
            lemma_members_depth(ms, ms.len() as int, j);
        },
        _ => {},
    }
}


/// The views of members, member by member.
pub proof fn lemma_view_members_map(members: Seq<(String, JsonValue)>)
    ensures
        view_members(members) == members.map_values(|m: (String, JsonValue)| (m.0@, view_json(m.1))),
    decreases members.len(),
{
    if members.len() > 0 {
        lemma_view_members_map(members.drop_last());
        assert(members.map_values(|m: (String, JsonValue)| (m.0@, view_json(m.1))) =~= members.drop_last().map_values(
            |m: (String, JsonValue)| (m.0@, view_json(m.1)),
        ).push((members.last().0@, view_json(members.last().1))));
    } else {
        assert(members.map_values(|m: (String, JsonValue)| (m.0@, view_json(m.1))) =~= Seq::<(Seq<char>, Json)>::empty());
    }
}

/// The views of items, item by item.
pub proof fn lemma_view_items_map(items: Seq<JsonValue>)
    ensures
        view_items(items) == items.map_values(|v: JsonValue| view_json(v)),
    decreases items.len(),
{
    if items.len() > 0 {
        lemma_view_items_map(items.drop_last());
        assert(items.map_values(|v: JsonValue| view_json(v)) =~= items.drop_last().map_values(
            |v: JsonValue| view_json(v),
        ).push(view_json(items.last())));
    } else {
        assert(items.map_values(|v: JsonValue| view_json(v)) =~= Seq::<Json>::empty());
    }
}


// ---------------------------------------------------------------- parsing

/// A value of the `serde_json` crate, held opaque.
#[verifier::external_type_specification]
#[verifier::external_body]
pub struct ExSerdeJsonValue(serde_json::Value);

/// The JSON value that `serde_json::from_str` reads a text as, when it
/// reads it.
pub uninterp spec fn parsed_json(text: Seq<char>) -> Option<Json>;

/// `serde_json::from_str`: the JSON value a text holds, `None` when it is
/// not JSON. What the value is for a given text is named, not restated.
#[verifier::external_body]
pub fn parse_json(text: &str) -> (r: Option<JsonValue>)
    ensures
        match r {
            Some(v) => parsed_json(text@) == Some(v@),
            None => parsed_json(text@) is None,
        },
{
    serde_json::from_str::<serde_json::Value>(text).ok().map(from_serde)
}

/// What `serde_yaml` reads a YAML text as, written by
/// `serde_json::to_string_pretty`, or the text of the error.
pub uninterp spec fn yaml_json_text(yaml: Seq<char>) -> Result<Seq<char>, Seq<char>>;

/// `serde_yaml::from_str` into a `serde_json::Value`, then
/// `serde_json::to_string_pretty`: the document as indented JSON, or the
/// text of the error. Both are named, not restated.
#[verifier::external_body]
pub fn yaml_to_json_text(yaml: &str) -> (r: Result<String, String>)
    ensures
        match r {
            Ok(t) => yaml_json_text(yaml@) == Ok::<Seq<char>, Seq<char>>(t@),
            Err(e) => yaml_json_text(yaml@) == Err::<Seq<char>, Seq<char>>(e@),
        },
{
    match serde_yaml::from_str::<serde_json::Value>(yaml) {
        Ok(v) => serde_json::to_string_pretty(&v).map_err(|e| e.to_string()),
        Err(e) => Err(e.to_string()),
    }
}

/// A `serde_json` value as a value of this library, one for one.
#[verifier::external_body]
fn from_serde(v: serde_json::Value) -> JsonValue {
    match v {
        serde_json::Value::Null => JsonValue::Null,
        serde_json::Value::Bool(b) => JsonValue::Bool(b),
        serde_json::Value::Number(n) => JsonValue::Number(match (n.as_i64(), n.as_u64()) {
            (Some(i), _) => JsonNumber::Int(i),
            (None, Some(u)) => JsonNumber::UInt(u),
            _ => JsonNumber::Float(n.to_string()),
        }),
        serde_json::Value::String(t) => JsonValue::String(t),
        serde_json::Value::Array(a) => JsonValue::Array(a.into_iter().map(from_serde).collect()),
        serde_json::Value::Object(m) => JsonValue::Object(m.into_iter().map(|(k, x)| (k, from_serde(x))).collect()),
    }
}

} // verus!
