//! Generation of k6 JavaScript test scripts from Arazzo workflows.

use vstd::prelude::*;
use crate::converters::{criteria_fit, inputs_fit, spec_fits, step_fits, workflow_fits, ConvertOptions, Converter};
use crate::models::arazzo::{ArazzoSpec, Parameter, RequestBody, Step, SuccessCriteria, Workflow};
use crate::error::{ErrorKind, HornetError};
use crate::models::openapi::{HttpMethod, OpenApiV3Spec, find_operation_in, first_operation_from, lemma_first_operation_bounds};
use crate::json::{lemma_member_depth, depth_fits, json_depth, items_depth, members_depth, lemma_items_depth, lemma_members_depth, member_value, Json, JsonValue, view_items, view_members, lemma_view_items_index, lemma_view_members_index, lemma_view_items_len, lemma_view_members_len};
use crate::text::{entries_view, entry_insert, find_entry, insert_entry, key_index, lemma_key_index, opt_view, replace_spec, replace_str, uppercase, to_uppercase, decimal, decimal_u64, join, join_spec, views_of, contains_char, indent_spaces, spaces, chars_eq, chars_of, contains, drop_prefix, find_char_from, index_of_from, lemma_index_of_from, push_chars, replace_char, replace_char_spec, seq_contains, seq_starts_with, slice_from, slice_range, starts_with, str_eq, string_of};

verus! {

/// Converter for generating k6 test scripts.
pub struct K6Converter;

// ---------------------------------------------------------------- runtime expressions

/// `rest` split at its first two dots, when the middle part is `outputs`:
/// the step and the output name.
pub open spec fn step_output(rest: Seq<char>) -> Option<(Seq<char>, Seq<char>)> {
    match index_of_from(rest, '.', 0) {
        Some(a) => match index_of_from(rest, '.', a + 1) {
            Some(b) => if rest.subrange(a + 1, b) == "outputs"@ {
                Some((rest.subrange(0, a), rest.subrange(b + 1, rest.len() as int)))
            } else {
                None
            },
            None => None,
        },
        None => None,
    }
}

/// The JavaScript for an Arazzo runtime expression: `$inputs.x` is
/// `inputs.x`, `$steps.s.outputs.o` is `s_o`, `$response.body.f` is
/// `response.json('f')`, `$statusCode` is `response.status`,
/// `$response.header.h` is `response.headers['h']`; anything else is quoted.
pub open spec fn runtime_js(e: Seq<char>) -> Seq<char> {
    if seq_starts_with(e, "$inputs."@) {
        "inputs."@ + drop_prefix(e, "$inputs."@.len())
    } else if seq_starts_with(e, "$steps."@) {
        let rest = drop_prefix(e, "$steps."@.len());
        match step_output(rest) {
            Some((step, output)) => step + "_"@ + output,
            None => replace_char_spec(rest, '.', "_"@),
        }
    } else if seq_starts_with(e, "$response.body."@) {
        "response.json('"@ + drop_prefix(e, "$response.body."@.len()) + "')"@
    } else if e == "$statusCode"@ {
        "response.status"@
    } else if seq_starts_with(e, "$response.header."@) {
        "response.headers['"@ + drop_prefix(e, "$response.header."@.len()) + "']"@
    } else {
        "\""@ + e + "\""@
    }
}

/// The text mentions a runtime expression.
pub open spec fn mentions_runtime_expr(s: Seq<char>) -> bool {
    seq_contains(s, "$inputs."@) || seq_contains(s, "$steps."@) || seq_contains(s, "$response."@)
        || seq_contains(s, "$statusCode"@)
}

/// Whether `e` begins with the literal `p`, and the rest of `e` after it.
fn strip_literal(e: &[char], p: &str) -> (r: Option<Vec<char>>)
    ensures
        match r {
            Some(rest) => seq_starts_with(e@, p@) && rest@ == drop_prefix(e@, p@.len()),
            None => !seq_starts_with(e@, p@),
        },
{
    let pc = chars_of(p);
    if starts_with(e, pc.as_slice()) {
        Some(slice_from(e, pc.len()))
    } else {
        None
    }
}

/// The step and output name of `rest`, when it reads `step.outputs.name`.
fn split_step_output(rest: &[char]) -> (r: Option<(Vec<char>, Vec<char>)>)
    ensures
        match r {
            Some((a, b)) => step_output(rest@) == Some((a@, b@)),
            None => step_output(rest@) is None,
        },
{
    match find_char_from(rest, '.', 0) {
        Some(a) => {
            proof { lemma_index_of_from(rest@, '.', 0); }
            assert(a < rest.len());
            match find_char_from(rest, '.', a + 1) {
                Some(b) => {
                    proof { lemma_index_of_from(rest@, '.', a + 1); }
                    assert(b < rest.len());
                    let middle = slice_range(rest, a + 1, b);
                    let outputs = chars_of("outputs");
                    if chars_eq(middle.as_slice(), outputs.as_slice()) {
                        Some((slice_range(rest, 0, a), slice_from(rest, b + 1)))
                    } else {
                        None
                    }
                },
                None => None,
            }
        },
        None => None,
    }
}

impl K6Converter {
    /// A converter.
    pub fn new() -> (c: Self) {
        K6Converter
    }

    /// The JavaScript for an Arazzo runtime expression.
    pub fn convert_runtime_expr(expr: &str) -> (s: String)
        ensures
            s@ == runtime_js(expr@),
    {
        let e = chars_of(expr);
        match strip_literal(e.as_slice(), "$inputs.") {
            Some(field) => {
                let mut s = String::from_str("inputs.");
                push_chars(&mut s, field.as_slice());
                return s;
            },
            None => {},
        }
        match strip_literal(e.as_slice(), "$steps.") {
            Some(rest) => {
                match split_step_output(rest.as_slice()) {
                    Some((step, output)) => {
                        let mut s = string_of(step.as_slice());
                        s.append("_");
                        push_chars(&mut s, output.as_slice());
                        return s;
                    },
                    None => {
                        let u = chars_of("_");
                        let r = replace_char(rest.as_slice(), '.', u.as_slice());
                        return string_of(r.as_slice());
                    },
                }
            },
            None => {},
        }
        match strip_literal(e.as_slice(), "$response.body.") {
            Some(field) => {
                let mut s = String::from_str("response.json('");
                push_chars(&mut s, field.as_slice());
                s.append("')");
                return s;
            },
            None => {},
        }
        if str_eq(expr, "$statusCode") {
            return String::from_str("response.status");
        }
        match strip_literal(e.as_slice(), "$response.header.") {
            Some(header) => {
                let mut s = String::from_str("response.headers['");
                push_chars(&mut s, header.as_slice());
                s.append("']");
                return s;
            },
            None => {},
        }
        let mut s = String::from_str("\"");
        s.append(expr);
        s.append("\"");
        s
    }

    /// Whether the text mentions a runtime expression.
    pub fn contains_runtime_expr(s: &str) -> (r: bool)
        ensures
            r == mentions_runtime_expr(s@),
    {
        let c = chars_of(s);
        let p1 = chars_of("$inputs.");
        let p2 = chars_of("$steps.");
        let p3 = chars_of("$response.");
        let p4 = chars_of("$statusCode");
        contains(c.as_slice(), p1.as_slice()) || contains(c.as_slice(), p2.as_slice())
            || contains(c.as_slice(), p3.as_slice()) || contains(c.as_slice(), p4.as_slice())
    }
}


// ---------------------------------------------------------------- JSON to JavaScript

/// A string as a JavaScript string literal: backslashes and double quotes
/// escaped, inside double quotes.
pub open spec fn js_quote(s: Seq<char>) -> Seq<char> {
    "\""@ + replace_char_spec(replace_char_spec(s, '\\', "\\\\"@), '"', "\\\""@) + "\""@
}

/// The JavaScript for a JSON value at the given indentation level: strings
/// starting with `$` are runtime expressions; arrays and objects spread over
/// lines, each entry one level deeper.
pub open spec fn js_value(v: Json, indent: nat) -> Seq<char>
    decreases v, 0int,
{
    match v {
        Json::Null => "null"@,
        Json::Bool(b) => if b { "true"@ } else { "false"@ },
        Json::Number(_, t) => t,
        Json::Str(s) => if s.len() > 0 && s[0] == '$' { runtime_js(s) } else { js_quote(s) },
        Json::Array(items) => if items.len() == 0 {
            "[]"@
        } else {
            "[\n"@ + js_items(items, indent, items.len() as int) + "\n"@ + indent_spaces(indent) + "]"@
        },
        Json::Object(members) => if members.len() == 0 {
            "{}"@
        } else {
            "{\n"@ + js_members(members, indent, members.len() as int) + "\n"@ + indent_spaces(indent)
                + "}"@
        },
    }
}

/// The first `k` items, one per line, separated by commas.
pub open spec fn js_items(items: Seq<Json>, indent: nat, k: int) -> Seq<char>
    decreases items, k,
{
    if k <= 0 || k > items.len() {
        Seq::empty()
    } else if k == 1 {
        indent_spaces(indent + 1) + js_value(items[0], indent + 1)
    } else {
        js_items(items, indent, k - 1) + ",\n"@ + indent_spaces(indent + 1) + js_value(
            items[k - 1],
            indent + 1,
        )
    }
}

/// The first `k` members as `"key": value`, one per line, separated by commas.
pub open spec fn js_members(members: Seq<(Seq<char>, Json)>, indent: nat, k: int) -> Seq<char>
    decreases members, k,
{
    if k <= 0 || k > members.len() {
        Seq::empty()
    } else if k == 1 {
        indent_spaces(indent + 1) + "\""@ + members[0].0 + "\": "@ + js_value(members[0].1, indent + 1)
    } else {
        js_members(members, indent, k - 1) + ",\n"@ + indent_spaces(indent + 1) + "\""@
            + members[k - 1].0 + "\": "@ + js_value(members[k - 1].1, indent + 1)
    }
}

/// A string as a JavaScript string literal.
fn quote_js(s: &str) -> (r: String)
    ensures
        r@ == js_quote(s@),
{
    let c = chars_of(s);
    let bs = chars_of("\\\\");
    let q = chars_of("\\\"");
    let a = replace_char(c.as_slice(), '\\', bs.as_slice());
    let b = replace_char(a.as_slice(), '"', q.as_slice());
    let mut r = String::from_str("\"");
    push_chars(&mut r, b.as_slice());
    r.append("\"");
    r
}

impl K6Converter {
    /// The JavaScript for a JSON value at the given indentation level.
    pub fn json_to_js(value: &JsonValue, indent: usize) -> (s: String)
        requires
            indent + json_depth(value@) < usize::MAX,
        ensures
            s@ == js_value(value@, indent as nat),
        decreases value, 0int,
    {
        match value {
            JsonValue::Null => String::from_str("null"),
            JsonValue::Bool(b) => if *b { String::from_str("true") } else { String::from_str("false") },
            JsonValue::Number(n) => n.to_text(),
            JsonValue::String(s) => {
                let c = chars_of(s.as_str());
                if c.len() > 0 && c[0] == '$' {
                    Self::convert_runtime_expr(s.as_str())
                } else {
                    quote_js(s.as_str())
                }
            },
            JsonValue::Array(items) => {
                proof {
                    assert(decreases_to!(*value => (*value)->Array_0));
                    lemma_view_items_len(items@);
                    assert(value@ == Json::Array(view_items(items@)));
                    assert(json_depth(value@) == 1 + items_depth(view_items(items@), items@.len() as int));
                }
                Self::array_to_js(items, indent)
            },
            JsonValue::Object(members) => {
                proof {
                    assert(decreases_to!(*value => (*value)->Object_0));
                    lemma_view_members_len(members@);
                    assert(value@ == Json::Object(view_members(members@)));
                    assert(json_depth(value@) == 1 + members_depth(view_members(members@), members@.len() as int));
                }
                Self::object_to_js(members, indent)
            },
        }
    }

    /// The JavaScript for an array value.
    fn array_to_js(items: &Vec<JsonValue>, indent: usize) -> (s: String)
        requires
            indent + 1 + items_depth(view_items(items@), items@.len() as int) < usize::MAX,
        ensures
            s@ == js_value(Json::Array(view_items(items@)), indent as nat),
        decreases items, items@.len(),
    {
        proof { lemma_view_items_len(items@); }
        if items.len() == 0 {
            return String::from_str("[]");
        }
        let ghost vi = view_items(items@);
        let mut s = String::from_str("[\n");
        let ghost head = s@;
        let mut k: usize = 0;
        assert(s@ =~= head + js_items(vi, indent as nat, 0));
        while k < items.len()
            invariant
                vi == view_items(items@),
                vi.len() == items@.len(),
                indent + 1 + items_depth(vi, vi.len() as int) < usize::MAX,
                k <= items@.len(),
                s@ == head + js_items(vi, indent as nat, k as int),
            decreases items.len() - k,
        {
            proof {
                lemma_view_items_index(items@, k as int);
                lemma_items_depth(vi, vi.len() as int, k as int);
                assert(decreases_to!(*items => items[k as int]));
            }
            if k > 0 {
                s.append(",\n");
            }
            s.append(spaces(indent + 1).as_str());
            s.append(Self::json_to_js(&items[k], indent + 1).as_str());
            k = k + 1;
            proof {
                if k == 1 {
                    assert(s@ =~= head + js_items(vi, indent as nat, 1));
                }
            }
        }
        s.append("\n");
        s.append(spaces(indent).as_str());
        s.append("]");
        s
    }

    /// The JavaScript for an object value.
    fn object_to_js(members: &Vec<(String, JsonValue)>, indent: usize) -> (s: String)
        requires
            indent + 1 + members_depth(view_members(members@), members@.len() as int) < usize::MAX,
        ensures
            s@ == js_value(Json::Object(view_members(members@)), indent as nat),
        decreases members, members@.len(),
    {
        proof { lemma_view_members_len(members@); }
        if members.len() == 0 {
            return String::from_str("{}");
        }
        let ghost vm = view_members(members@);
        let mut s = String::from_str("{\n");
        let ghost head = s@;
        let mut k: usize = 0;
        assert(s@ =~= head + js_members(vm, indent as nat, 0));
        while k < members.len()
            invariant
                vm == view_members(members@),
                vm.len() == members@.len(),
                indent + 1 + members_depth(vm, vm.len() as int) < usize::MAX,
                k <= members@.len(),
                s@ == head + js_members(vm, indent as nat, k as int),
            decreases members.len() - k,
        {
            proof {
                lemma_view_members_index(members@, k as int);
                lemma_members_depth(vm, vm.len() as int, k as int);
                assert(decreases_to!(*members => members[k as int]));
                assert(decreases_to!(members[k as int] => members[k as int].1));
            }
            if k > 0 {
                s.append(",\n");
            }
            s.append(spaces(indent + 1).as_str());
            s.append("\"");
            s.append(members[k].0.as_str());
            s.append("\": ");
            s.append(Self::json_to_js(&members[k].1, indent + 1).as_str());
            k = k + 1;
            proof {
                if k == 1 {
                    assert(s@ =~= head + js_members(vm, indent as nat, 1));
                }
            }
        }
        s.append("\n");
        s.append(spaces(indent).as_str());
        s.append("}");
        s
    }
}

// ---------------------------------------------------------------- embedded expressions

/// An ASCII letter.
pub open spec fn is_ascii_letter(c: char) -> bool {
    ('a' <= c && c <= 'z') || ('A' <= c && c <= 'Z')
}

/// A character that may continue a runtime expression inside text:
/// an ASCII letter or digit, `_` or `.`.
pub open spec fn is_expr_char(c: char) -> bool {
    is_ascii_letter(c) || ('0' <= c && c <= '9') || c == '_' || c == '.'
}

/// The end of the run of expression characters that starts at `j`.
pub open spec fn expr_end(s: Seq<char>, j: int) -> int
    decreases s.len() - j,
{
    if 0 <= j < s.len() && is_expr_char(s[j]) {
        expr_end(s, j + 1)
    } else {
        j
    }
}

/// A run of expression characters ends within the text, at a position
/// that no expression character occupies.
pub proof fn lemma_expr_end(s: Seq<char>, j: int)
    requires
        0 <= j <= s.len(),
    ensures
        j <= expr_end(s, j) <= s.len(),
        expr_end(s, j) < s.len() ==> !is_expr_char(s[expr_end(s, j)]),
        forall|k: int| j <= k < expr_end(s, j) ==> is_expr_char(#[trigger] s[k]),
    decreases s.len() - j,
{
    if j < s.len() && is_expr_char(s[j]) {
        lemma_expr_end(s, j + 1);
    }
}

/// An embedded runtime expression starts at `i`: a `$` followed by a letter.
pub open spec fn expr_starts_at(s: Seq<char>, i: int) -> bool {
    0 <= i && i + 1 < s.len() && s[i] == '$' && is_ascii_letter(s[i + 1])
}

/// A runtime expression as a template-literal placeholder.
pub open spec fn placeholder(e: Seq<char>) -> Seq<char> {
    "${"@ + runtime_js(e) + "}"@
}

/// The text from position `i` on, with each embedded runtime expression
/// (a `$`, a letter, then letters, digits, `_` and `.`, taken from left to
/// right without overlap) replaced by its placeholder.
pub open spec fn templated_from(s: Seq<char>, i: int) -> Seq<char>
    decreases s.len() - i,
{
    if i < 0 || i >= s.len() {
        Seq::empty()
    } else if expr_starts_at(s, i) {
        let e = expr_end(s, i + 2);
        proof { lemma_expr_end(s, i + 2); }
        placeholder(s.subrange(i, e)) + templated_from(s, e)
    } else {
        seq![s[i]] + templated_from(s, i + 1)
    }
}

/// The JavaScript for a value that may hold runtime expressions: a string
/// that starts with `$` and has no space is one expression; a string that
/// mentions expressions becomes a template literal; other strings are
/// quoted; other values are written as JavaScript.
pub open spec fn value_js(v: Json) -> Seq<char> {
    match v {
        Json::Str(s) => if s.len() > 0 && s[0] == '$' && !s.contains(' ') {
            runtime_js(s)
        } else if mentions_runtime_expr(s) {
            "`"@ + templated_from(s, 0) + "`"@
        } else {
            js_quote(s)
        },
        _ => js_value(v, 0),
    }
}

/// `Regex::new` and `Regex::replace_all` of the `regex` crate, with the
/// pattern `\$[a-zA-Z][a-zA-Z0-9_.]*` and each match replaced by its
/// placeholder. The contract claims that the matches are the leftmost
/// non-overlapping ones of that pattern and the text between them is kept.
#[verifier::external_body]
fn replace_runtime_exprs(s: &str) -> (r: String)
    ensures
        r@ == templated_from(s@, 0),
{
    let re = regex::Regex::new(r"\$[a-zA-Z][a-zA-Z0-9_.]*").unwrap();
    re.replace_all(s, |caps: &regex::Captures| K6Converter::placeholder_for(&caps[0])).into_owned()
}

impl K6Converter {
    /// A runtime expression as a template-literal placeholder.
    pub fn placeholder_for(expr: &str) -> (s: String)
        ensures
            s@ == placeholder(expr@),
    {
        let mut s = String::from_str("${");
        s.append(Self::convert_runtime_expr(expr).as_str());
        s.append("}");
        s
    }

    /// The JavaScript for a value that may hold runtime expressions.
    pub fn convert_value_with_expr(value: &JsonValue) -> (s: String)
        requires
            json_depth(value@) < usize::MAX,
        ensures
            s@ == value_js(value@),
    {
        match value {
            JsonValue::String(text) => {
                let c = chars_of(text.as_str());
                if c.len() > 0 && c[0] == '$' && !contains_char(c.as_slice(), ' ') {
                    Self::convert_runtime_expr(text.as_str())
                } else if Self::contains_runtime_expr(text.as_str()) {
                    let mut s = String::from_str("`");
                    s.append(replace_runtime_exprs(text.as_str()).as_str());
                    s.append("`");
                    s
                } else {
                    quote_js(text.as_str())
                }
            },
            _ => Self::json_to_js(value, 0),
        }
    }
}

// ---------------------------------------------------------------- script pieces

/// The `options` export: the virtual users (1 by default), then the
/// duration, or else the iterations (1 by default).
pub open spec fn options_js(o: ConvertOptions) -> Seq<char> {
    let vus = match o.vus {
        Some(v) => "  vus: "@ + decimal(v as nat) + ","@,
        None => "  vus: 1,"@,
    };
    let run = match o.duration {
        Some(d) => "  duration: '"@ + d@ + "',"@,
        None => match o.iterations {
            Some(n) => "  iterations: "@ + decimal(n as nat) + ","@,
            None => "  iterations: 1,"@,
        },
    };
    "export let options = {\n"@ + vus + "\n"@ + run + "\n};\n"@
}

/// The JavaScript that reads a criterion's context from the response held
/// in `rv`.
pub open spec fn context_js(c: Seq<char>, rv: Seq<char>) -> Seq<char> {
    if c == "$statusCode"@ {
        rv + ".status"@
    } else if seq_starts_with(c, "$response.body."@) {
        rv + ".json('"@ + drop_prefix(c, "$response.body."@.len()) + "')"@
    } else if seq_starts_with(c, "$response.header."@) {
        rv + ".headers['"@ + drop_prefix(c, "$response.header."@.len()) + "']"@
    } else if seq_starts_with(c, "$steps."@) {
        runtime_js(c)
    } else {
        "\""@ + c + "\""@
    }
}

/// The JavaScript that reads an output's expression from the response
/// held in `rv`.
pub open spec fn extraction_source(expr: Seq<char>, rv: Seq<char>) -> Seq<char> {
    if seq_starts_with(expr, "$response.body."@) {
        let field = drop_prefix(expr, "$response.body."@.len());
        if !field.contains('.') {
            rv + ".json('"@ + field + "')"@
        } else {
            rv + ".json()."@ + field
        }
    } else if expr == "$response.body"@ {
        rv + ".json()"@
    } else if seq_starts_with(expr, "$response.header."@) {
        rv + ".headers['"@ + drop_prefix(expr, "$response.header."@.len()) + "']"@
    } else {
        runtime_js(expr)
    }
}

/// The statement that stores a step's output in `<step>_<output>`.
pub open spec fn extraction_js(step_id: Seq<char>, name: Seq<char>, expr: Seq<char>, rv: Seq<char>) -> Seq<char> {
    "  let "@ + step_id + "_"@ + name + " = "@ + extraction_source(expr, rv) + ";"@
}

/// The two sides of a criterion's check: the context, and the expected
/// value (`true` when none is given).
pub open spec fn criterion_sides(crit: SuccessCriteria, rv: Seq<char>) -> (Seq<char>, Seq<char>) {
    (
        context_js(crit.context@, rv),
        match crit.value {
            Some(v) => js_value(v@, 0),
            None => "true"@,
        },
    )
}

/// The JavaScript comparison for a criterion's condition (`===` when the
/// condition is not recognised).
pub open spec fn condition_operator(c: Seq<char>) -> Seq<char> {
    if c == "=="@ || c == "$eq"@ {
        "==="@
    } else if c == "!="@ || c == "$ne"@ {
        "!=="@
    } else if c == ">"@ || c == "$gt"@ {
        ">"@
    } else if c == ">="@ || c == "$gte"@ {
        ">="@
    } else if c == "<"@ || c == "$lt"@ {
        "<"@
    } else if c == "<="@ || c == "$lte"@ {
        "<="@
    } else {
        "==="@
    }
}

/// The conditions Arazzo criteria compare with, in both spellings.
pub open spec fn recognised_condition(c: Seq<char>) -> bool {
    c == "=="@ || c == "$eq"@ || c == "!="@ || c == "$ne"@ || c == ">"@ || c == "$gt"@ || c == ">="@
        || c == "$gte"@ || c == "<"@ || c == "$lt"@ || c == "<="@ || c == "$lte"@
}

/// What an Arazzo condition says of two numbers.
pub open spec fn arazzo_compares(c: Seq<char>, x: int, y: int) -> bool {
    if c == "$eq"@ || c == "=="@ {
        x == y
    } else if c == "$ne"@ || c == "!="@ {
        x != y
    } else if c == "$gt"@ || c == ">"@ {
        x > y
    } else if c == "$gte"@ || c == ">="@ {
        x >= y
    } else if c == "$lt"@ || c == "<"@ {
        x < y
    } else {
        x <= y
    }
}

/// What a JavaScript comparison operator says of two numbers.
pub open spec fn js_compares(op: Seq<char>, x: int, y: int) -> bool {
    if op == "==="@ {
        x == y
    } else if op == "!=="@ {
        x != y
    } else if op == "<"@ {
        x < y
    } else if op == "<="@ {
        x <= y
    } else if op == ">"@ {
        x > y
    } else if op == ">="@ {
        x >= y
    } else {
        false
    }
}

/// Each recognised condition becomes the JavaScript operator with the same
/// meaning: the generated check holds of two numbers exactly when the
/// criterion does.
pub proof fn law_conditions_keep_their_meaning(c: Seq<char>, x: int, y: int)
    requires
        recognised_condition(c),
    ensures
        js_compares(condition_operator(c), x, y) == arazzo_compares(c, x, y),
{
    reveal_strlit("==");
    reveal_strlit("$eq");
    reveal_strlit("!=");
    reveal_strlit("$ne");
    reveal_strlit(">");
    reveal_strlit("$gt");
    reveal_strlit(">=");
    reveal_strlit("$gte");
    reveal_strlit("<");
    reveal_strlit("$lt");
    reveal_strlit("<=");
    reveal_strlit("$lte");
    reveal_strlit("===");
    reveal_strlit("!==");
    assert("<"@[0] != ">"@[0]);
    assert("<="@[0] != ">="@[0]);
    assert("==="@[0] != "!=="@[0]);
    if c == "=="@ || c == "$eq"@ {
        assert(condition_operator(c) == "==="@);
    } else if c == "!="@ || c == "$ne"@ {
        assert(condition_operator(c) == "!=="@);
    } else if c == ">"@ || c == "$gt"@ {
        assert(condition_operator(c) == ">"@);
    } else if c == ">="@ || c == "$gte"@ {
        assert(condition_operator(c) == ">="@);
    } else if c == "<"@ || c == "$lt"@ {
        assert(condition_operator(c) == "<"@);
    } else {
        assert(condition_operator(c) == "<="@);
    }
}

/// A condition that is not recognised is read as equality.
pub proof fn law_unknown_conditions_compare_equal(c: Seq<char>, x: int, y: int)
    requires
        !recognised_condition(c),
    ensures
        js_compares(condition_operator(c), x, y) == (x == y),
{
}

/// The check entry for criterion number `i` (counted from 0).
pub open spec fn check_line(i: int, crit: SuccessCriteria, rv: Seq<char>) -> Seq<char> {
    "    'check_"@ + decimal((i + 1) as nat) + "': (r) => "@ + criterion_sides(crit, rv).0 + " "@
        + condition_operator(crit.condition@) + " "@ + criterion_sides(crit, rv).1
}

/// The check entries of all criteria, in order.
pub open spec fn check_lines(criteria: Seq<SuccessCriteria>, rv: Seq<char>) -> Seq<Seq<char>> {
    Seq::new(criteria.len(), |i: int| check_line(i, criteria[i], rv))
}

/// The `check` call for the criteria; empty when there are none.
pub open spec fn checks_js(criteria: Seq<SuccessCriteria>, rv: Seq<char>) -> Seq<char> {
    if criteria.len() == 0 {
        Seq::empty()
    } else {
        "  check("@ + rv + ", {\n"@ + join_spec(check_lines(criteria, rv), ",\n"@) + "\n  });"@
    }
}

/// The request body: its payload passed to `JSON.stringify`.
pub open spec fn request_body_js(b: RequestBody) -> Seq<char> {
    "JSON.stringify("@ + js_value(b.payload@, 0) + ")"@
}

/// The base URL: the first server's URL, or `http://localhost:8080`.
pub open spec fn base_url_of(api: OpenApiV3Spec) -> Seq<char> {
    if api.servers@.len() > 0 {
        api.servers@[0]@
    } else {
        "http://localhost:8080"@
    }
}

/// The methods searched, in order, when locating an operation.
pub open spec fn k6_methods() -> Seq<HttpMethod> {
    seq![
        HttpMethod::Get,
        HttpMethod::Post,
        HttpMethod::Put,
        HttpMethod::Delete,
        HttpMethod::Patch,
        HttpMethod::Head,
        HttpMethod::Options,
    ]
}

/// The path and method of the operation `id`: the first path, in document
/// order, that holds it under one of the searched methods.
pub open spec fn operation_of(api: OpenApiV3Spec, id: Seq<char>) -> Option<(Seq<char>, Seq<char>)> {
    match api.paths {
        Some(paths) => match first_operation_from(paths@, k6_methods(), id, 0) {
            Some((j, m)) => Some((paths@[j].0@, m.spec_name())),
            None => None,
        },
        None => None,
    }
}

impl K6Converter {
    /// The `options` export.
    pub fn generate_options(options: &ConvertOptions) -> (s: String)
        ensures
            s@ == options_js(*options),
    {
        let mut s = String::from_str("export let options = {\n");
        match options.vus {
            Some(v) => {
                s.append("  vus: ");
                s.append(decimal_u64(v as u64).as_str());
                s.append(",");
            },
            None => s.append("  vus: 1,"),
        }
        s.append("\n");
        match &options.duration {
            Some(d) => {
                s.append("  duration: '");
                s.append(d.as_str());
                s.append("',");
            },
            None => match options.iterations {
                Some(n) => {
                    s.append("  iterations: ");
                    s.append(decimal_u64(n as u64).as_str());
                    s.append(",");
                },
                None => s.append("  iterations: 1,"),
            },
        }
        s.append("\n};\n");
        s
    }

    /// The JavaScript that reads a criterion's context from the response
    /// held in `response_var`.
    pub fn convert_context_to_js(&self, context: &str, response_var: &str) -> (s: String)
        ensures
            s@ == context_js(context@, response_var@),
    {
        let c = chars_of(context);
        if str_eq(context, "$statusCode") {
            let mut s = String::from_str(response_var);
            s.append(".status");
            return s;
        }
        match strip_literal(c.as_slice(), "$response.body.") {
            Some(field) => {
                let mut s = String::from_str(response_var);
                s.append(".json('");
                push_chars(&mut s, field.as_slice());
                s.append("')");
                return s;
            },
            None => {},
        }
        match strip_literal(c.as_slice(), "$response.header.") {
            Some(header) => {
                let mut s = String::from_str(response_var);
                s.append(".headers['");
                push_chars(&mut s, header.as_slice());
                s.append("']");
                return s;
            },
            None => {},
        }
        match strip_literal(c.as_slice(), "$steps.") {
            Some(_) => {
                return Self::convert_runtime_expr(context);
            },
            None => {},
        }
        let mut s = String::from_str("\"");
        s.append(context);
        s.append("\"");
        s
    }

    /// The statement that stores a step's output in `<step>_<output>`.
    pub fn generate_output_extraction(
        &self,
        step_id: &str,
        output_name: &str,
        expr: &str,
        response_var: &str,
    ) -> (s: String)
        ensures
            s@ == extraction_js(step_id@, output_name@, expr@, response_var@),
    {
        let e = chars_of(expr);
        let mut src = String::from_str(response_var);
        match strip_literal(e.as_slice(), "$response.body.") {
            Some(field) => {
                if !contains_char(field.as_slice(), '.') {
                    src.append(".json('");
                    push_chars(&mut src, field.as_slice());
                    src.append("')");
                } else {
                    src.append(".json().");
                    push_chars(&mut src, field.as_slice());
                }
            },
            None => {
                if str_eq(expr, "$response.body") {
                    src.append(".json()");
                } else {
                    match strip_literal(e.as_slice(), "$response.header.") {
                        Some(header) => {
                            src.append(".headers['");
                            push_chars(&mut src, header.as_slice());
                            src.append("']");
                        },
                        None => {
                            src = Self::convert_runtime_expr(expr);
                        },
                    }
                }
            },
        }
        let mut s = String::from_str("  let ");
        s.append(step_id);
        s.append("_");
        s.append(output_name);
        s.append(" = ");
        s.append(src.as_str());
        s.append(";");
        s
    }

    /// The two sides of a criterion's check.
    pub fn convert_criteria_to_check(&self, crit: &SuccessCriteria, response_var: &str) -> (r: (String, String))
        requires
            match crit.value {
                Some(v) => depth_fits(v),
                None => true,
            },
        ensures
            (r.0@, r.1@) == criterion_sides(*crit, response_var@),
    {
        let left = self.convert_context_to_js(crit.context.as_str(), response_var);
        let right = match &crit.value {
            Some(v) => Self::json_to_js(v, 0),
            None => String::from_str("true"),
        };
        (left, right)
    }

    /// The JavaScript comparison for a criterion's condition.
    fn condition_js(condition: &str) -> (s: &'static str)
        ensures
            s@ == condition_operator(condition@),
    {
        proof {
            reveal_strlit("===");
            reveal_strlit("!==");
            reveal_strlit(">");
            reveal_strlit(">=");
            reveal_strlit("<");
            reveal_strlit("<=");
        }
        if str_eq(condition, "==") || str_eq(condition, "$eq") {
            "==="
        } else if str_eq(condition, "!=") || str_eq(condition, "$ne") {
            "!=="
        } else if str_eq(condition, ">") || str_eq(condition, "$gt") {
            ">"
        } else if str_eq(condition, ">=") || str_eq(condition, "$gte") {
            ">="
        } else if str_eq(condition, "<") || str_eq(condition, "$lt") {
            "<"
        } else if str_eq(condition, "<=") || str_eq(condition, "$lte") {
            "<="
        } else {
            "==="
        }
    }

    /// The `check` call for the criteria; empty when there are none.
    pub fn generate_checks(&self, criteria: &[SuccessCriteria], response_var: &str) -> (s: String)
        requires
            criteria_fit(criteria@),
        ensures
            s@ == checks_js(criteria@, response_var@),
    {
        let mut checks: Vec<String> = Vec::new();
        let mut i: usize = 0;
        while i < criteria.len()
            invariant
                i <= criteria@.len(),
                criteria_fit(criteria@),
                views_of(checks@) == check_lines(criteria@, response_var@).subrange(0, i as int),
            decreases criteria.len() - i,
        {
            let crit = &criteria[i];
            assert(match crit.value { Some(v) => depth_fits(v), None => true });
            let (left, right) = self.convert_criteria_to_check(crit, response_var);
            let mut line = String::from_str("    'check_");
            line.append(decimal_u64((i as u64) + 1).as_str());
            line.append("': (r) => ");
            line.append(left.as_str());
            line.append(" ");
            line.append(Self::condition_js(crit.condition.as_str()));
            line.append(" ");
            line.append(right.as_str());
            let ghost before = checks@;
            checks.push(line);
            assert(views_of(checks@) =~= views_of(before).push(line@));
            assert(views_of(checks@) =~= check_lines(criteria@, response_var@).subrange(0, i + 1));
            i = i + 1;
        }
        assert(check_lines(criteria@, response_var@).subrange(0, i as int) =~= check_lines(criteria@, response_var@));
        if checks.len() == 0 {
            return String::new();
        }
        let mut s = String::from_str("  check(");
        s.append(response_var);
        s.append(", {\n");
        s.append(join(&checks, ",\n").as_str());
        s.append("\n  });");
        s
    }

    /// The request body: its payload passed to `JSON.stringify`.
    pub fn generate_request_body(body: &RequestBody) -> (s: String)
        requires
            depth_fits(body.payload),
        ensures
            s@ == request_body_js(*body),
    {
        let mut s = String::from_str("JSON.stringify(");
        s.append(Self::json_to_js(&body.payload, 0).as_str());
        s.append(")");
        s
    }

    /// The base URL: the first server's URL, or `http://localhost:8080`.
    pub fn get_base_url(openapi: &OpenApiV3Spec) -> (s: String)
        ensures
            s@ == base_url_of(*openapi),
    {
        if openapi.servers.len() > 0 {
            openapi.servers[0].clone()
        } else {
            String::from_str("http://localhost:8080")
        }
    }

    /// The path and method of the operation `operation_id`.
    pub fn find_operation(openapi: &OpenApiV3Spec, operation_id: &str) -> (r: Option<(String, String)>)
        ensures
            match r {
                Some((path, method)) => operation_of(*openapi, operation_id@) == Some((path@, method@)),
                None => operation_of(*openapi, operation_id@) is None,
            },
    {
        match &openapi.paths {
            Some(paths) => {
                let methods = [
                    HttpMethod::Get,
                    HttpMethod::Post,
                    HttpMethod::Put,
                    HttpMethod::Delete,
                    HttpMethod::Patch,
                    HttpMethod::Head,
                    HttpMethod::Options,
                ];
                assert(methods@ =~= k6_methods());
                match find_operation_in(paths, &methods, operation_id) {
                    Some((j, m)) => {
                        proof { lemma_first_operation_bounds(paths@, k6_methods(), operation_id@, 0); }
                        Some((paths[j].0.clone(), m.name()))
                    },
                    None => None,
                }
            },
            None => None,
        }
    }
}

// ---------------------------------------------------------------- workflow inputs

/// The initial value of a workflow input: its schema's default, or else a
/// neutral value of its schema's type (`null` for other types).
pub open spec fn input_value_js(schema: Json) -> Seq<char> {
    match schema.member("default"@) {
        Some(d) => js_value(d, 0),
        None => match schema.member("type"@) {
            Some(Json::Str(t)) => if t == "string"@ {
                "\"\""@
            } else if t == "number"@ || t == "integer"@ {
                "0"@
            } else if t == "boolean"@ {
                "false"@
            } else {
                "null"@
            },
            _ => "null"@,
        },
    }
}

/// One line per input property, in order.
pub open spec fn input_lines(props: Seq<(Seq<char>, Json)>) -> Seq<Seq<char>> {
    Seq::new(props.len(), |i: int| "    "@ + props[i].0 + ": "@ + input_value_js(props[i].1) + ","@)
}

/// The `inputs` object of a workflow, from the properties of its input
/// schema; an empty object when it has none.
pub open spec fn inputs_js(inputs: Option<JsonValue>) -> Seq<char> {
    match inputs {
        Some(v) => match v@.member("properties"@) {
            Some(Json::Object(props)) => "  let inputs = {\n"@ + join_spec(input_lines(props), "\n"@)
                + "\n  };\n"@,
            _ => "  let inputs = {};\n"@,
        },
        None => "  let inputs = {};\n"@,
    }
}

impl K6Converter {
    /// The initial value of a workflow input.
    fn input_value(schema: &JsonValue) -> (s: String)
        requires
            depth_fits(*schema),
        ensures
            s@ == input_value_js(schema@),
    {
        match schema.get("default") {
            Some(d) => {
                proof { lemma_member_depth(schema@, "default"@); }
                Self::json_to_js(d, 0)
            },
            None => {
                let t = match schema.get("type") {
                    Some(tv) => tv.as_str(),
                    None => None,
                };
                match t {
                    Some(t) => {
                        if str_eq(t.as_str(), "string") {
                            String::from_str("\"\"")
                        } else if str_eq(t.as_str(), "number") || str_eq(t.as_str(), "integer") {
                            String::from_str("0")
                        } else if str_eq(t.as_str(), "boolean") {
                            String::from_str("false")
                        } else {
                            String::from_str("null")
                        }
                    },
                    None => String::from_str("null"),
                }
            },
        }
    }

    /// The `inputs` object of a workflow.
    pub fn generate_inputs(workflow: &Workflow) -> (s: String)
        requires
            inputs_fit(workflow.inputs),
        ensures
            s@ == inputs_js(workflow.inputs),
    {
        let props_value = match &workflow.inputs {
            Some(v) => v.get("properties"),
            None => None,
        };
        match props_value {
            Some(JsonValue::Object(props)) => {
                let ghost vp = view_members(props@);
                proof {
                    lemma_view_members_len(props@);
                    lemma_member_depth(workflow.inputs.unwrap()@, "properties"@);
                }
                let mut lines: Vec<String> = Vec::new();
                let mut i: usize = 0;
                while i < props.len()
                    invariant
                        i <= props@.len(),
                        vp == view_members(props@),
                        vp.len() == props@.len(),
                        members_depth(vp, vp.len() as int) < usize::MAX,
                        views_of(lines@) == input_lines(vp).subrange(0, i as int),
                    decreases props.len() - i,
                {
                    proof {
                        lemma_view_members_index(props@, i as int);
                        lemma_members_depth(vp, vp.len() as int, i as int);
                    }
                    let mut line = String::from_str("    ");
                    line.append(props[i].0.as_str());
                    line.append(": ");
                    line.append(Self::input_value(&props[i].1).as_str());
                    line.append(",");
                    let ghost before = lines@;
                    lines.push(line);
                    assert(views_of(lines@) =~= views_of(before).push(line@));
                    assert(views_of(lines@) =~= input_lines(vp).subrange(0, i + 1));
                    i = i + 1;
                }
                assert(input_lines(vp).subrange(0, i as int) =~= input_lines(vp));
                let mut s = String::from_str("  let inputs = {\n");
                s.append(join(&lines, "\n").as_str());
                s.append("\n  };\n");
                s
            },
            _ => String::from_str("  let inputs = {};\n"),
        }
    }
}

// ---------------------------------------------------------------- steps

/// The entries of the parameters at `loc` among the first `n`, each name
/// set to its last value.
pub open spec fn param_entries(params: Seq<Parameter>, loc: Seq<char>, n: int) -> Seq<(Seq<char>, Seq<char>)>
    decreases n,
{
    if n <= 0 || n > params.len() {
        Seq::empty()
    } else {
        let m = param_entries(params, loc, n - 1);
        if params[n - 1].location@ == loc {
            entry_insert(m, params[n - 1].name@, value_js(params[n - 1].value@))
        } else {
            m
        }
    }
}

/// The query assignments of the query parameters among the first `n`.
pub open spec fn query_parts(params: Seq<Parameter>, n: int) -> Seq<Seq<char>>
    decreases n,
{
    if n <= 0 || n > params.len() {
        Seq::empty()
    } else {
        let q = query_parts(params, n - 1);
        if params[n - 1].location@ == "query"@ {
            q.push(params[n - 1].name@ + "=${"@ + value_js(params[n - 1].value@) + "}"@)
        } else {
            q
        }
    }
}

/// The URL as a string literal, or with query assignments as a template
/// literal.
pub open spec fn quoted_url(url: Seq<char>, query: Seq<Seq<char>>) -> Seq<char> {
    if query.len() == 0 {
        "\""@ + url + "\""@
    } else {
        "`"@ + url + "?"@ + join_spec(query, "&"@) + "`"@
    }
}

/// The URL with the first `n` path parameters' `{name}` placeholders
/// filled with `${value}`.
pub open spec fn fill_path_params(u: Seq<char>, entries: Seq<(Seq<char>, Seq<char>)>, n: int) -> Seq<char>
    decreases n,
{
    if n <= 0 || n > entries.len() {
        u
    } else {
        replace_spec(
            fill_path_params(u, entries, n - 1),
            "{"@ + entries[n - 1].0 + "}"@,
            "${"@ + entries[n - 1].1 + "}"@,
        )
    }
}

/// The request URL: quoted, with path parameters filled in; a string
/// literal that then holds a placeholder becomes a template literal.
pub open spec fn final_url(url: Seq<char>, query: Seq<Seq<char>>, paths: Seq<(Seq<char>, Seq<char>)>) -> Seq<char> {
    let q = quoted_url(url, query);
    if paths.len() == 0 {
        q
    } else {
        let u = fill_path_params(q, paths, paths.len() as int);
        if u.len() > 0 && u[0] == '"' && seq_contains(u, "${"@) {
            "`"@ + u.subrange(1, u.len() - 1) + "`"@
        } else {
            u
        }
    }
}

/// The content type of a request body (JSON by default).
pub open spec fn content_type_of(b: RequestBody) -> Seq<char> {
    match b.content_type {
        Some(c) => c@,
        None => "application/json"@,
    }
}

/// The headers of a step's request: its header parameters, and a
/// `Content-Type` when it has a body and sets none.
pub open spec fn step_headers(step: Step) -> Seq<(Seq<char>, Seq<char>)> {
    let h = param_entries(step.parameters@, "header"@, step.parameters@.len() as int);
    match step.request_body {
        Some(b) => if key_index(h, "Content-Type"@, 0) is Some {
            h
        } else {
            h.push(("Content-Type"@, "\""@ + content_type_of(b) + "\""@))
        },
        None => h,
    }
}

/// One line per header.
pub open spec fn header_lines(h: Seq<(Seq<char>, Seq<char>)>) -> Seq<Seq<char>> {
    Seq::new(h.len(), |i: int| "      '"@ + h[i].0 + "': "@ + h[i].1)
}

/// The `headers` member of the request parameters, when there are headers.
pub open spec fn headers_block(h: Seq<(Seq<char>, Seq<char>)>) -> Option<Seq<char>> {
    if h.len() == 0 {
        None
    } else {
        Some("    headers: {\n"@ + join_spec(header_lines(h), ",\n"@) + "\n    }"@)
    }
}

/// The k6 function for a method that sends a body.
pub open spec fn body_method_fn(method: Seq<char>) -> Seq<char> {
    if method == "POST"@ {
        "post"@
    } else if method == "PUT"@ {
        "put"@
    } else {
        "patch"@
    }
}

/// The request statement: `http.get`, `http.del`, `http.post`, `http.put`
/// or `http.patch` with the headers when there are any, else
/// `http.request` with the method's name (and no headers).
pub open spec fn http_call(method: Seq<char>, rv: Seq<char>, url: Seq<char>, body: Option<Seq<char>>, headers: Option<Seq<char>>) -> Seq<char> {
    let b = match body {
        Some(b) => b,
        None => "null"@,
    };
    if method == "GET"@ {
        match headers {
            Some(h) => "  let "@ + rv + " = http.get("@ + url + ", {\n"@ + h + "\n  });"@,
            None => "  let "@ + rv + " = http.get("@ + url + ");"@,
        }
    } else if method == "DELETE"@ {
        match headers {
            Some(h) => "  let "@ + rv + " = http.del("@ + url + ", null, {\n"@ + h + "\n  });"@,
            None => "  let "@ + rv + " = http.del("@ + url + ");"@,
        }
    } else if method == "POST"@ || method == "PUT"@ || method == "PATCH"@ {
        match headers {
            Some(h) => "  let "@ + rv + " = http."@ + body_method_fn(method) + "("@ + url + ", "@ + b + ", {\n"@
                + h + "\n  });"@,
            None => "  let "@ + rv + " = http."@ + body_method_fn(method) + "("@ + url + ", "@ + b + ");"@,
        }
    } else {
        "  let "@ + rv + " = http.request('"@ + method + "', "@ + url + ", "@ + b + ");"@
    }
}

/// The comment that opens a step's code.
pub open spec fn step_comment(step: Step) -> Seq<char> {
    match step.description {
        Some(d) => "  // Step: "@ + step.step_id@ + " - "@ + d@,
        None => "  // Step: "@ + step.step_id@,
    }
}

/// The extraction statements of the first `n` outputs whose expression is
/// a string.
pub open spec fn string_outputs(step_id: Seq<char>, ms: Seq<(Seq<char>, Json)>, rv: Seq<char>, n: int) -> Seq<Seq<char>>
    decreases n,
{
    if n <= 0 || n > ms.len() {
        Seq::empty()
    } else {
        let prev = string_outputs(step_id, ms, rv, n - 1);
        match ms[n - 1].1 {
            Json::Str(e) => prev.push(extraction_js(step_id, ms[n - 1].0, e, rv)),
            _ => prev,
        }
    }
}

/// The extraction statements of a step's outputs.
pub open spec fn output_lines(step_id: Seq<char>, outputs: Option<JsonValue>, rv: Seq<char>) -> Seq<Seq<char>> {
    match outputs {
        Some(v) => match v@ {
            Json::Object(ms) => string_outputs(step_id, ms, rv, ms.len() as int),
            _ => Seq::empty(),
        },
        None => Seq::empty(),
    }
}

/// Where a step's request goes, as a path and a method: found by its
/// operation identifier, or read from its operation path (`METHOD path`,
/// the method upper-cased); or why it cannot be told.
pub open spec fn step_target(step: Step, api: OpenApiV3Spec) -> Result<(Seq<char>, Seq<char>), (ErrorKind, Seq<char>)> {
    match step.operation_id {
        Some(id) => match operation_of(api, id@) {
            Some(t) => Ok(t),
            None => Err((ErrorKind::OperationNotFound, "Operation '"@ + id@ + "' not found"@)),
        },
        None => match step.operation_path {
            Some(p) => match index_of_from(p@, ' ', 0) {
                Some(k) => Ok((p@.subrange(k + 1, p@.len() as int), uppercase(p@.subrange(0, k)))),
                None => Err((ErrorKind::Validation, "Invalid operationPath format: "@ + p@)),
            },
            None => Err(
                (ErrorKind::Validation, "Step '"@ + step.step_id@ + "' has no operationId or operationPath"@),
            ),
        },
    }
}

/// The checks line of a step, when it has criteria.
pub open spec fn step_checks(step: Step, rv: Seq<char>) -> Seq<Seq<char>> {
    match step.success_criteria {
        Some(c) => if checks_js(c@, rv).len() > 0 {
            seq![checks_js(c@, rv)]
        } else {
            Seq::empty()
        },
        None => Seq::empty(),
    }
}

/// The code of a step: its comment, its request, its checks, the
/// extraction of its outputs and an empty line; or why its request cannot
/// be built.
pub open spec fn step_js(step: Step, api: OpenApiV3Spec, base: Seq<char>) -> Result<Seq<char>, (ErrorKind, Seq<char>)> {
    match step_target(step, api) {
        Err(e) => Err(e),
        Ok((path, method)) => {
            let rv = step.step_id@ + "_response"@;
            let ps = step.parameters@;
            let url = final_url(
                base + path,
                query_parts(ps, ps.len() as int),
                param_entries(ps, "path"@, ps.len() as int),
            );
            let body = match step.request_body {
                Some(b) => Some(request_body_js(b)),
                None => None,
            };
            let call = http_call(method, rv, url, body, headers_block(step_headers(step)));
            Ok(join_spec(
                seq![step_comment(step), call] + step_checks(step, rv) + output_lines(step.step_id@, step.outputs, rv)
                    + seq![Seq::<char>::empty()],
                "\n"@,
            ))
        },
    }
}

/// The error view of a step's failure.
fn step_error(kind: ErrorKind, msg: String) -> (e: HornetError)
    requires
        kind == ErrorKind::OperationNotFound || kind == ErrorKind::Validation,
    ensures
        e@ == (kind, msg@),
{
    match kind {
        ErrorKind::OperationNotFound => HornetError::OperationNotFound(msg),
        _ => HornetError::ValidationError(msg),
    }
}

/// The request URL, built as `final_url` describes.
fn final_url_of(url: &str, query: &Vec<String>, paths: &Vec<(String, String)>) -> (s: String)
    ensures
        s@ == final_url(url@, views_of(query@), entries_view(paths@)),
{
    let mut q = String::new();
    if query.len() == 0 {
        q.append("\"");
        q.append(url);
        q.append("\"");
    } else {
        q.append("`");
        q.append(url);
        q.append("?");
        q.append(join(query, "&").as_str());
        q.append("`");
    }
    assert(q@ == quoted_url(url@, views_of(query@)));
    if paths.len() == 0 {
        return q;
    }
    let ghost ev = entries_view(paths@);
    let mut u: Vec<char> = chars_of(q.as_str());
    let mut i: usize = 0;
    while i < paths.len()
        invariant
            i <= paths@.len(),
            ev == entries_view(paths@),
            ev.len() == paths@.len(),
            u@ == fill_path_params(q@, ev, i as int),
        decreases paths.len() - i,
    {
        let mut pat = String::from_str("{");
        pat.append(paths[i].0.as_str());
        pat.append("}");
        let mut rep = String::from_str("${");
        rep.append(paths[i].1.as_str());
        rep.append("}");
        let pc = chars_of(pat.as_str());
        let rc = chars_of(rep.as_str());
        u = replace_str(u.as_slice(), pc.as_slice(), rc.as_slice());
        i = i + 1;
    }
    let marker = chars_of("${");
    proof {
        reveal_strlit("${");
        assert(marker@.len() == 2);
    }
    if u.len() > 0 && u[0] == '"' && contains(u.as_slice(), marker.as_slice()) {
        let mut s = String::from_str("`");
        let inner = slice_range(u.as_slice(), 1, u.len() - 1);
        push_chars(&mut s, inner.as_slice());
        s.append("`");
        s
    } else {
        string_of(u.as_slice())
    }
}

/// The `headers` member of the request parameters, when there are headers.
fn headers_block_of(h: &Vec<(String, String)>) -> (r: Option<String>)
    ensures
        match r {
            Some(s) => headers_block(entries_view(h@)) == Some(s@),
            None => headers_block(entries_view(h@)) is None,
        },
{
    if h.len() == 0 {
        return None;
    }
    let ghost ev = entries_view(h@);
    let mut lines: Vec<String> = Vec::new();
    let mut i: usize = 0;
    while i < h.len()
        invariant
            i <= h@.len(),
            ev == entries_view(h@),
            ev.len() == h@.len(),
            views_of(lines@) == header_lines(ev).subrange(0, i as int),
        decreases h.len() - i,
    {
        let mut line = String::from_str("      '");
        line.append(h[i].0.as_str());
        line.append("': ");
        line.append(h[i].1.as_str());
        let ghost before = lines@;
        lines.push(line);
        assert(views_of(lines@) =~= views_of(before).push(line@));
        assert(views_of(lines@) =~= header_lines(ev).subrange(0, i + 1));
        i = i + 1;
    }
    assert(header_lines(ev).subrange(0, i as int) =~= header_lines(ev));
    let mut s = String::from_str("    headers: {\n");
    s.append(join(&lines, ",\n").as_str());
    s.append("\n    }");
    Some(s)
}

/// The request statement of a step.
fn http_call_of(method: &str, rv: &str, url: &str, body: &Option<String>, headers: &Option<String>) -> (s: String)
    ensures
        s@ == http_call(method@, rv@, url@, opt_view(*body), opt_view(*headers)),
{
    let b: String = match body {
        Some(b) => b.clone(),
        None => String::from_str("null"),
    };
    let mut s = String::from_str("  let ");
    s.append(rv);
    if str_eq(method, "GET") {
        s.append(" = http.get(");
        s.append(url);
        match headers {
            Some(h) => {
                s.append(", {\n");
                s.append(h.as_str());
                s.append("\n  });");
            },
            None => s.append(");"),
        }
    } else if str_eq(method, "DELETE") {
        s.append(" = http.del(");
        s.append(url);
        match headers {
            Some(h) => {
                s.append(", null, {\n");
                s.append(h.as_str());
                s.append("\n  });");
            },
            None => s.append(");"),
        }
    } else if str_eq(method, "POST") || str_eq(method, "PUT") || str_eq(method, "PATCH") {
        s.append(" = http.");
        if str_eq(method, "POST") {
            s.append("post");
        } else if str_eq(method, "PUT") {
            s.append("put");
        } else {
            s.append("patch");
        }
        s.append("(");
        s.append(url);
        s.append(", ");
        s.append(b.as_str());
        match headers {
            Some(h) => {
                s.append(", {\n");
                s.append(h.as_str());
                s.append("\n  });");
            },
            None => s.append(");"),
        }
    } else {
        s.append(" = http.request('");
        s.append(method);
        s.append("', ");
        s.append(url);
        s.append(", ");
        s.append(b.as_str());
        s.append(");");
    }
    s
}

impl K6Converter {
    /// Where a step's request goes, as a path and a method.
    fn step_target_of(step: &Step, openapi: &OpenApiV3Spec) -> (r: Result<(String, String), HornetError>)
        ensures
            match r {
                Ok((path, method)) => step_target(*step, *openapi) == Ok::<(Seq<char>, Seq<char>), (ErrorKind, Seq<char>)>((path@, method@)),
                Err(e) => step_target(*step, *openapi) == Err::<(Seq<char>, Seq<char>), (ErrorKind, Seq<char>)>(e@),
            },
    {
        match &step.operation_id {
            Some(id) => match Self::find_operation(openapi, id.as_str()) {
                Some(t) => Ok(t),
                None => {
                    let mut msg = String::from_str("Operation '");
                    msg.append(id.as_str());
                    msg.append("' not found");
                    Err(step_error(ErrorKind::OperationNotFound, msg))
                },
            },
            None => match &step.operation_path {
                Some(p) => {
                    let pc = chars_of(p.as_str());
                    match find_char_from(pc.as_slice(), ' ', 0) {
                        Some(k) => {
                            proof { lemma_index_of_from(pc@, ' ', 0); }
                            assert(k < pc.len());
                            let path = string_of(slice_from(pc.as_slice(), k + 1).as_slice());
                            let head = string_of(slice_range(pc.as_slice(), 0, k).as_slice());
                            Ok((path, to_uppercase(head.as_str())))
                        },
                        None => {
                            let mut msg = String::from_str("Invalid operationPath format: ");
                            msg.append(p.as_str());
                            Err(step_error(ErrorKind::Validation, msg))
                        },
                    }
                },
                None => {
                    let mut msg = String::from_str("Step '");
                    msg.append(step.step_id.as_str());
                    msg.append("' has no operationId or operationPath");
                    Err(step_error(ErrorKind::Validation, msg))
                },
            },
        }
    }

    /// The extraction statements of a step's outputs.
    fn output_extractions(&self, step_id: &str, outputs: &Option<JsonValue>, rv: &str) -> (v: Vec<String>)
        ensures
            views_of(v@) == output_lines(step_id@, *outputs, rv@),
    {
        let mut out: Vec<String> = Vec::new();
        match outputs {
            Some(JsonValue::Object(ms)) => {
                let ghost vm = view_members(ms@);
                proof { lemma_view_members_len(ms@); }
                let mut j: usize = 0;
                while j < ms.len()
                    invariant
                        j <= ms@.len(),
                        vm == view_members(ms@),
                        vm.len() == ms@.len(),
                        views_of(out@) == string_outputs(step_id@, vm, rv@, j as int),
                    decreases ms.len() - j,
                {
                    proof { lemma_view_members_index(ms@, j as int); }
                    match &ms[j].1 {
                        JsonValue::String(e) => {
                            let line = self.generate_output_extraction(step_id, ms[j].0.as_str(), e.as_str(), rv);
                            let ghost before = out@;
                            out.push(line);
                            assert(views_of(out@) =~= views_of(before).push(line@));
                        },
                        _ => {},
                    }
                    j = j + 1;
                }
            },
            _ => {},
        }
        out
    }

    /// The code of a step: its comment, its request, its checks, the
    /// extraction of its outputs and an empty line.
    pub fn generate_step(&self, step: &Step, openapi: &OpenApiV3Spec, base_url: &str) -> (r: Result<String, HornetError>)
        requires
            step_fits(*step),
        ensures
            match r {
                Ok(s) => step_js(*step, *openapi, base_url@) == Ok::<Seq<char>, (ErrorKind, Seq<char>)>(s@),
                Err(e) => step_js(*step, *openapi, base_url@) == Err::<Seq<char>, (ErrorKind, Seq<char>)>(e@),
            },
    {
        let mut comment = String::from_str("  // Step: ");
        comment.append(step.step_id.as_str());
        match &step.description {
            Some(d) => {
                comment.append(" - ");
                comment.append(d.as_str());
            },
            None => {},
        }
        let (path, method) = match Self::step_target_of(step, openapi) {
            Ok(t) => t,
            Err(e) => {
                return Err(e);
            },
        };
        let mut url = String::from_str(base_url);
        url.append(path.as_str());

        let params = &step.parameters;
        let mut headers: Vec<(String, String)> = Vec::new();
        let mut query: Vec<String> = Vec::new();
        let mut path_params: Vec<(String, String)> = Vec::new();
        let mut i: usize = 0;
        while i < params.len()
            invariant
                i <= params@.len(),
                params == &step.parameters,
                step_fits(*step),
                entries_view(headers@) == param_entries(params@, "header"@, i as int),
                views_of(query@) == query_parts(params@, i as int),
                entries_view(path_params@) == param_entries(params@, "path"@, i as int),
            decreases params.len() - i,
        {
            proof {
                reveal_strlit("header");
                reveal_strlit("query");
                reveal_strlit("path");
                assert("header"@[0] == 'h' && "query"@[0] == 'q' && "path"@[0] == 'p');
                assert("header"@ != "query"@);
                assert("header"@ != "path"@);
                assert("query"@ != "path"@);
            }
            let param = &params[i];
            assert(depth_fits(params@[i as int].value));
            let value = Self::convert_value_with_expr(&param.value);
            if str_eq(param.location.as_str(), "header") {
                insert_entry(&mut headers, param.name.clone(), value);
            } else if str_eq(param.location.as_str(), "query") {
                let mut q = param.name.clone();
                q.append("=${");
                q.append(value.as_str());
                q.append("}");
                let ghost before = query@;
                query.push(q);
                assert(views_of(query@) =~= views_of(before).push(q@));
            } else if str_eq(param.location.as_str(), "path") {
                insert_entry(&mut path_params, param.name.clone(), value);
            }
            i = i + 1;
        }
        let final_url = final_url_of(url.as_str(), &query, &path_params);

        let body_code: Option<String> = match &step.request_body {
            Some(b) => Some(Self::generate_request_body(b)),
            None => None,
        };
        match &step.request_body {
            Some(b) => {
                match find_entry(&headers, "Content-Type") {
                    Some(_) => {},
                    None => {
                        let mut ct = String::from_str("\"");
                        match &b.content_type {
                            Some(c) => ct.append(c.as_str()),
                            None => ct.append("application/json"),
                        }
                        ct.append("\"");
                        let ghost before = headers@;
                        headers.push((String::from_str("Content-Type"), ct));
                        assert(entries_view(headers@) =~= entries_view(before).push(("Content-Type"@, ct@)));
                    },
                }
            },
            None => {},
        }
        assert(entries_view(headers@) == step_headers(*step));
        let headers_code = headers_block_of(&headers);

        let mut rv = step.step_id.clone();
        rv.append("_response");
        let call = http_call_of(method.as_str(), rv.as_str(), final_url.as_str(), &body_code, &headers_code);

        let mut lines: Vec<String> = Vec::new();
        lines.push(comment);
        lines.push(call);
        let ghost head = views_of(lines@);
        match &step.success_criteria {
            Some(c) => {
                let checks = self.generate_checks(c.as_slice(), rv.as_str());
                if !checks.as_str().is_empty() {
                    lines.push(checks);
                }
            },
            None => {},
        }
        assert(views_of(lines@) =~= head + step_checks(*step, rv@));
        let ghost with_checks = views_of(lines@);
        let mut outs = self.output_extractions(step.step_id.as_str(), &step.outputs, rv.as_str());
        let ghost outs_view = views_of(outs@);
        lines.append(&mut outs);
        assert(views_of(lines@) =~= with_checks + outs_view);
        let ghost before_last = views_of(lines@);
        lines.push(String::new());
        assert(views_of(lines@) =~= before_last + seq![Seq::<char>::empty()]);
        assert(views_of(lines@) =~= seq![step_comment(*step), call@] + step_checks(*step, rv@)
            + output_lines(step.step_id@, step.outputs, rv@) + seq![Seq::<char>::empty()]);
        Ok(join(&lines, "\n"))
    }
}

// ---------------------------------------------------------------- scripts

/// The base URL of requests: the one given in the options, else the
/// OpenAPI document's.
pub open spec fn base_for(o: ConvertOptions, api: OpenApiV3Spec) -> Seq<char> {
    match o.base_url {
        Some(b) => b@,
        None => base_url_of(api),
    }
}

/// The code of the first `n` steps, or the first step's failure.
pub open spec fn steps_js(steps: Seq<Step>, api: OpenApiV3Spec, base: Seq<char>, n: int) -> Result<Seq<Seq<char>>, (ErrorKind, Seq<char>)>
    decreases n,
{
    if n <= 0 || n > steps.len() {
        Ok(Seq::empty())
    } else {
        match steps_js(steps, api, base, n - 1) {
            Err(e) => Err(e),
            Ok(prev) => match step_js(steps[n - 1], api, base) {
                Err(e) => Err(e),
                Ok(c) => Ok(prev.push(c)),
            },
        }
    }
}

/// The summary comment of a workflow, when it has a summary.
pub open spec fn summary_lines(w: Workflow) -> Seq<Seq<char>> {
    match w.summary {
        Some(s) => seq!["// "@ + s@],
        None => Seq::empty(),
    }
}

/// The import lines of a script, between empty lines.
pub open spec fn import_lines() -> Seq<Seq<char>> {
    seq![Seq::<char>::empty(), "import http from 'k6/http';"@, "import { check, sleep } from 'k6';"@, Seq::<char>::empty()]
}

/// The script for one workflow: a header comment, the imports, the options,
/// and a default function with the inputs, each step's code and a sleep;
/// or the first step's failure.
pub open spec fn workflow_script(w: Workflow, api: OpenApiV3Spec, o: ConvertOptions) -> Result<Seq<char>, (ErrorKind, Seq<char>)> {
    match steps_js(w.steps@, api, base_for(o, api), w.steps@.len() as int) {
        Err(e) => Err(e),
        Ok(codes) => Ok(join_spec(
            seq!["// k6 script generated from Arazzo workflow: "@ + w.workflow_id@] + summary_lines(w)
                + import_lines() + seq![options_js(o), "export default function () {"@, inputs_js(w.inputs)]
                + codes + seq!["  sleep(1);"@, "}"@],
            "\n"@,
        )),
    }
}

/// The JavaScript function name of a workflow: its identifier with `-`
/// replaced by `_`.
pub open spec fn function_name(w: Workflow) -> Seq<char> {
    replace_char_spec(w.workflow_id@, '-', "_"@)
}

/// The lines of a workflow's function in a script of several workflows;
/// or the first step's failure.
pub open spec fn workflow_block(w: Workflow, api: OpenApiV3Spec, base: Seq<char>) -> Result<Seq<Seq<char>>, (ErrorKind, Seq<char>)> {
    match steps_js(w.steps@, api, base, w.steps@.len() as int) {
        Err(e) => Err(e),
        Ok(codes) => Ok(
            seq!["// Workflow: "@ + w.workflow_id@] + summary_lines(w) + seq![
                "function "@ + function_name(w) + "() {"@,
                inputs_js(w.inputs),
            ] + codes + seq!["}"@, Seq::<char>::empty()],
        ),
    }
}

/// The lines of the first `n` workflows' functions; or the first failure.
pub open spec fn workflow_blocks(ws: Seq<Workflow>, api: OpenApiV3Spec, base: Seq<char>, n: int) -> Result<Seq<Seq<char>>, (ErrorKind, Seq<char>)>
    decreases n,
{
    if n <= 0 || n > ws.len() {
        Ok(Seq::empty())
    } else {
        match workflow_blocks(ws, api, base, n - 1) {
            Err(e) => Err(e),
            Ok(prev) => match workflow_block(ws[n - 1], api, base) {
                Err(e) => Err(e),
                Ok(b) => Ok(prev + b),
            },
        }
    }
}

/// A call of each workflow's function, in order.
pub open spec fn workflow_calls(ws: Seq<Workflow>) -> Seq<Seq<char>> {
    Seq::new(ws.len(), |i: int| "  "@ + function_name(ws[i]) + "();"@)
}

/// The script for a document: empty without workflows; the workflow's
/// script for one; for several, a function per workflow and a default
/// function that calls each in turn. Or the first step's failure.
pub open spec fn spec_script(a: ArazzoSpec, api: OpenApiV3Spec, o: ConvertOptions) -> Result<Seq<char>, (ErrorKind, Seq<char>)> {
    let ws = a.workflows@;
    if ws.len() == 0 {
        Ok(Seq::empty())
    } else if ws.len() == 1 {
        workflow_script(ws[0], api, o)
    } else {
        match workflow_blocks(ws, api, base_for(o, api), ws.len() as int) {
            Err(e) => Err(e),
            Ok(blocks) => Ok(join_spec(
                seq![
                    "// k6 script generated from Arazzo specification"@,
                    "// Contains "@ + decimal(ws.len()) + " workflows"@,
                ] + import_lines() + seq![options_js(o)] + blocks + seq!["export default function () {"@]
                    + workflow_calls(ws) + seq!["  sleep(1);"@, "}"@],
                "\n"@,
            )),
        }
    }
}

/// Appends the lines of `more` to `lines`.
fn append_lines(lines: &mut Vec<String>, more: Vec<String>)
    ensures
        views_of(final(lines)@) == views_of(old(lines)@) + views_of(more@),
{
    let mut more = more;
    let ghost a = old(lines)@;
    let ghost b = more@;
    lines.append(&mut more);
    assert(views_of(lines@) =~= views_of(a) + views_of(b));
}

/// Appends one line to `lines`.
fn push_line(lines: &mut Vec<String>, line: String)
    ensures
        views_of(final(lines)@) == views_of(old(lines)@).push(line@),
{
    let ghost a = old(lines)@;
    lines.push(line);
    assert(views_of(lines@) =~= views_of(a).push(line@));
}

impl K6Converter {
    /// The base URL of requests.
    fn base_url_for(options: &ConvertOptions, openapi: &OpenApiV3Spec) -> (s: String)
        ensures
            s@ == base_for(*options, *openapi),
    {
        match &options.base_url {
            Some(b) => b.clone(),
            None => Self::get_base_url(openapi),
        }
    }

    /// The code of each step, in order; or the first step's failure.
    fn steps_code(&self, steps: &Vec<Step>, openapi: &OpenApiV3Spec, base: &str) -> (r: Result<Vec<String>, HornetError>)
        requires
            forall|i: int| 0 <= i < steps@.len() ==> step_fits(#[trigger] steps@[i]),
        ensures
            match r {
                Ok(v) => steps_js(steps@, *openapi, base@, steps@.len() as int) == Ok::<Seq<Seq<char>>, (ErrorKind, Seq<char>)>(views_of(v@)),
                Err(e) => steps_js(steps@, *openapi, base@, steps@.len() as int) == Err::<Seq<Seq<char>>, (ErrorKind, Seq<char>)>(e@),
            },
    {
        let mut codes: Vec<String> = Vec::new();
        let mut i: usize = 0;
        assert(views_of(codes@) =~= Seq::<Seq<char>>::empty());
        while i < steps.len()
            invariant
                i <= steps@.len(),
                forall|j: int| 0 <= j < steps@.len() ==> step_fits(#[trigger] steps@[j]),
                steps_js(steps@, *openapi, base@, i as int) == Ok::<Seq<Seq<char>>, (ErrorKind, Seq<char>)>(views_of(codes@)),
            decreases steps.len() - i,
        {
            assert(step_fits(steps@[i as int]));
            match self.generate_step(&steps[i], openapi, base) {
                Ok(code) => {
                    push_line(&mut codes, code);
                },
                Err(e) => {
                    proof { lemma_steps_js_fails(steps@, *openapi, base@, i as int + 1, steps@.len() as int); }
                    return Err(e);
                },
            }
            i = i + 1;
        }
        Ok(codes)
    }
}

/// Once a step fails, every longer prefix fails with the same error.
proof fn lemma_steps_js_fails(steps: Seq<Step>, api: OpenApiV3Spec, base: Seq<char>, n: int, m: int)
    requires
        0 < n <= m <= steps.len(),
        steps_js(steps, api, base, n) is Err,
    ensures
        steps_js(steps, api, base, m) == steps_js(steps, api, base, n),
    decreases m - n,
{
    if m > n {
        lemma_steps_js_fails(steps, api, base, n, m - 1);
    }
}

/// Once a workflow fails, every longer prefix fails with the same error.
proof fn lemma_workflow_blocks_fail(ws: Seq<Workflow>, api: OpenApiV3Spec, base: Seq<char>, n: int, m: int)
    requires
        0 < n <= m <= ws.len(),
        workflow_blocks(ws, api, base, n) is Err,
    ensures
        workflow_blocks(ws, api, base, m) == workflow_blocks(ws, api, base, n),
    decreases m - n,
{
    if m > n {
        lemma_workflow_blocks_fail(ws, api, base, n, m - 1);
    }
}

/// Appends an empty line, the import lines and another empty line.
fn push_imports(lines: &mut Vec<String>)
    ensures
        views_of(final(lines)@) == views_of(old(lines)@) + import_lines(),
{
    push_line(lines, String::new());
    push_line(lines, String::from_str("import http from 'k6/http';"));
    push_line(lines, String::from_str("import { check, sleep } from 'k6';"));
    push_line(lines, String::new());
    assert(views_of(lines@) =~= views_of(old(lines)@) + import_lines());
}

/// Appends the summary comment of a workflow, when it has a summary.
fn push_summary(lines: &mut Vec<String>, w: &Workflow)
    ensures
        views_of(final(lines)@) == views_of(old(lines)@) + summary_lines(*w),
{
    match &w.summary {
        Some(sm) => {
            let mut c = String::from_str("// ");
            c.append(sm.as_str());
            push_line(lines, c);
        },
        None => {},
    }
    assert(views_of(lines@) =~= views_of(old(lines)@) + summary_lines(*w));
}

/// The JavaScript function name of a workflow.
fn function_name_of(w: &Workflow) -> (s: String)
    ensures
        s@ == function_name(*w),
{
    let c = chars_of(w.workflow_id.as_str());
    let u = chars_of("_");
    string_of(replace_char(c.as_slice(), '-', u.as_slice()).as_slice())
}

impl K6Converter {
    /// The lines of a workflow's function in a script of several workflows.
    fn workflow_block_code(&self, w: &Workflow, openapi: &OpenApiV3Spec, base: &str) -> (r: Result<Vec<String>, HornetError>)
        requires
            workflow_fits(*w),
        ensures
            match r {
                Ok(v) => workflow_block(*w, *openapi, base@) == Ok::<Seq<Seq<char>>, (ErrorKind, Seq<char>)>(views_of(v@)),
                Err(e) => workflow_block(*w, *openapi, base@) == Err::<Seq<Seq<char>>, (ErrorKind, Seq<char>)>(e@),
            },
    {
        let codes = match self.steps_code(&w.steps, openapi, base) {
            Ok(c) => c,
            Err(e) => {
                return Err(e);
            },
        };
        let ghost cv = views_of(codes@);
        let mut lines: Vec<String> = Vec::new();
        let mut head = String::from_str("// Workflow: ");
        head.append(w.workflow_id.as_str());
        push_line(&mut lines, head);
        push_summary(&mut lines, w);
        let mut f = String::from_str("function ");
        f.append(function_name_of(w).as_str());
        f.append("() {");
        push_line(&mut lines, f);
        push_line(&mut lines, Self::generate_inputs(w));
        append_lines(&mut lines, codes);
        push_line(&mut lines, String::from_str("}"));
        push_line(&mut lines, String::new());
        assert(views_of(lines@) =~= seq!["// Workflow: "@ + w.workflow_id@] + summary_lines(*w) + seq![
            "function "@ + function_name(*w) + "() {"@,
            inputs_js(w.inputs),
        ] + cv + seq!["}"@, Seq::<char>::empty()]);
        Ok(lines)
    }
}

impl Converter for K6Converter {
    type Output = String;

    /// The script for a document: empty without workflows; the workflow's
    /// script for one; for several, a function per workflow and a default
    /// function that calls each in turn.
    fn convert_spec(
        &self,
        arazzo: &ArazzoSpec,
        openapi: &OpenApiV3Spec,
        options: &ConvertOptions,
    ) -> (r: Result<String, HornetError>)
        ensures
            match r {
                Ok(s) => spec_script(*arazzo, *openapi, *options) == Ok::<Seq<char>, (ErrorKind, Seq<char>)>(s@),
                Err(e) => spec_script(*arazzo, *openapi, *options) == Err::<Seq<char>, (ErrorKind, Seq<char>)>(e@),
            },
    {
        let ws = &arazzo.workflows;
        if ws.len() == 0 {
            return Ok(String::new());
        }
        if ws.len() == 1 {
            assert(workflow_fits(ws@[0]));
            return self.convert_workflow(&ws[0], openapi, options);
        }
        let base = Self::base_url_for(options, openapi);
        let mut blocks: Vec<String> = Vec::new();
        let mut i: usize = 0;
        assert(views_of(blocks@) =~= Seq::<Seq<char>>::empty());
        while i < ws.len()
            invariant
                i <= ws@.len(),
                ws == &arazzo.workflows,
                spec_fits(*arazzo),
                base@ == base_for(*options, *openapi),
                workflow_blocks(ws@, *openapi, base@, i as int) == Ok::<Seq<Seq<char>>, (ErrorKind, Seq<char>)>(views_of(blocks@)),
            decreases ws.len() - i,
        {
            assert(workflow_fits(ws@[i as int]));
            match self.workflow_block_code(&ws[i], openapi, base.as_str()) {
                Ok(b) => append_lines(&mut blocks, b),
                Err(e) => {
                    proof { lemma_workflow_blocks_fail(ws@, *openapi, base@, i as int + 1, ws@.len() as int); }
                    return Err(e);
                },
            }
            i = i + 1;
        }
        let ghost bv = views_of(blocks@);
        let mut lines: Vec<String> = Vec::new();
        push_line(&mut lines, String::from_str("// k6 script generated from Arazzo specification"));
        let mut count = String::from_str("// Contains ");
        count.append(decimal_u64(ws.len() as u64).as_str());
        count.append(" workflows");
        push_line(&mut lines, count);
        push_imports(&mut lines);
        push_line(&mut lines, Self::generate_options(options));
        append_lines(&mut lines, blocks);
        push_line(&mut lines, String::from_str("export default function () {"));
        let ghost before_calls = views_of(lines@);
        let mut k: usize = 0;
        while k < ws.len()
            invariant
                k <= ws@.len(),
                ws == &arazzo.workflows,
                views_of(lines@) == before_calls + workflow_calls(ws@).subrange(0, k as int),
            decreases ws.len() - k,
        {
            let mut call = String::from_str("  ");
            call.append(function_name_of(&ws[k]).as_str());
            call.append("();");
            push_line(&mut lines, call);
            assert(workflow_calls(ws@).subrange(0, k + 1) =~= workflow_calls(ws@).subrange(0, k as int).push(call@));
            k = k + 1;
        }
        assert(workflow_calls(ws@).subrange(0, k as int) =~= workflow_calls(ws@));
        push_line(&mut lines, String::from_str("  sleep(1);"));
        push_line(&mut lines, String::from_str("}"));
        assert(views_of(lines@) =~= seq![
            "// k6 script generated from Arazzo specification"@,
            "// Contains "@ + decimal(ws@.len()) + " workflows"@,
        ] + import_lines() + seq![options_js(*options)] + bv + seq!["export default function () {"@]
            + workflow_calls(ws@) + seq!["  sleep(1);"@, "}"@]);
        Ok(join(&lines, "\n"))
    }

    /// The script for one workflow: a header comment, the imports, the
    /// options, and a default function with the inputs, each step's code
    /// and a sleep.
    fn convert_workflow(
        &self,
        workflow: &Workflow,
        openapi: &OpenApiV3Spec,
        options: &ConvertOptions,
    ) -> (r: Result<String, HornetError>)
        ensures
            match r {
                Ok(s) => workflow_script(*workflow, *openapi, *options) == Ok::<Seq<char>, (ErrorKind, Seq<char>)>(s@),
                Err(e) => workflow_script(*workflow, *openapi, *options) == Err::<Seq<char>, (ErrorKind, Seq<char>)>(e@),
            },
    {
        let base = Self::base_url_for(options, openapi);
        let codes = match self.steps_code(&workflow.steps, openapi, base.as_str()) {
            Ok(c) => c,
            Err(e) => {
                return Err(e);
            },
        };
        let ghost cv = views_of(codes@);
        let mut lines: Vec<String> = Vec::new();
        let mut head = String::from_str("// k6 script generated from Arazzo workflow: ");
        head.append(workflow.workflow_id.as_str());
        push_line(&mut lines, head);
        push_summary(&mut lines, workflow);
        push_imports(&mut lines);
        push_line(&mut lines, Self::generate_options(options));
        push_line(&mut lines, String::from_str("export default function () {"));
        push_line(&mut lines, Self::generate_inputs(workflow));
        append_lines(&mut lines, codes);
        push_line(&mut lines, String::from_str("  sleep(1);"));
        push_line(&mut lines, String::from_str("}"));
        assert(views_of(lines@) =~= seq!["// k6 script generated from Arazzo workflow: "@ + workflow.workflow_id@]
            + summary_lines(*workflow) + import_lines() + seq![
            options_js(*options),
            "export default function () {"@,
            inputs_js(workflow.inputs),
        ] + cv + seq!["  sleep(1);"@, "}"@]);
        Ok(join(&lines, "\n"))
    }
}
} // verus!
