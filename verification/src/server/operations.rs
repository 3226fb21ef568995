//! The operations of a project's OpenAPI documents as the editor lists them:
//! each operation with its parameters, request body, response codes and the
//! properties of its first success response, references into the
//! document's components resolved.

use vstd::prelude::*;
use crate::loader::openapi_resolver::OpenApiResolver;
use crate::models::openapi::{
    Components, HttpMethod, MediaType, ObjectOrReference, ObjectSchema, OpenApiV3Spec, Operation, Parameter, PathItem,
    RequestBody, Response, Schema,
};
use crate::text::{chars_of, opt_view, replace_char, replace_char_spec, seq_starts_with, slice_from, starts_with, string_of, views_of};

verus! {

// ---------------------------------------------------------------- listed forms

/// An operation as the editor lists it.
pub struct OperationInfo {
    pub operation_id: String,
    pub method: String,
    pub path: String,
    pub summary: Option<String>,
    pub description: Option<String>,
    pub parameters: Vec<ParameterInfo>,
    pub request_body: Option<RequestBodyInfo>,
    pub tags: Vec<String>,
    /// The response status codes made of digits only.
    pub response_codes: Vec<String>,
    /// The properties of the first success response.
    pub response_schema: Option<ResponseSchemaInfo>,
}

/// The top-level properties of a success response body.
pub struct ResponseSchemaInfo {
    pub status_code: String,
    pub properties: Vec<String>,
}

/// A parameter as the editor lists it.
pub struct ParameterInfo {
    pub name: String,
    /// `query`, `header`, `path` or `cookie`.
    pub location: String,
    pub required: bool,
    pub schema_type: Option<String>,
    pub description: Option<String>,
}

/// A request body as the editor lists it.
pub struct RequestBodyInfo {
    pub required: bool,
    pub content_types: Vec<String>,
    pub description: Option<String>,
}

/// All operations of a project.
pub struct OperationsResponse {
    pub operations: Vec<OperationInfo>,
}

// ---------------------------------------------------------------- references

/// The value of the first entry named `k`.
pub open spec fn entry<T>(es: Seq<(String, T)>, k: Seq<char>) -> Option<T>
    decreases es.len(),
{
    if es.len() == 0 {
        None
    } else if es[0].0@ == k {
        Some(es[0].1)
    } else {
        entry(es.drop_first(), k)
    }
}

/// `s` without the prefix `p`, when it starts with it.
pub open spec fn strip_prefix(s: Seq<char>, p: Seq<char>) -> Option<Seq<char>> {
    if seq_starts_with(s, p) {
        Some(s.subrange(p.len() as int, s.len() as int))
    } else {
        None
    }
}

/// An object given in place, or the object that a reference of the form
/// `prefix` + name names among the components, when there is one given
/// in place there.
pub open spec fn resolved<T>(components: Option<Seq<(String, ObjectOrReference<T>)>>, prefix: Seq<char>, r: ObjectOrReference<T>) -> Option<T> {
    match r {
        ObjectOrReference::Object(x) => Some(x),
        ObjectOrReference::Ref(path) => match components {
            Some(cs) => match strip_prefix(path@, prefix) {
                Some(name) => match entry(cs, name) {
                    Some(ObjectOrReference::Object(x)) => Some(x),
                    _ => None,
                },
                None => None,
            },
            None => None,
        },
    }
}

/// The component parameters of a document.
pub open spec fn component_parameters(spec: OpenApiV3Spec) -> Option<Seq<(String, ObjectOrReference<Parameter>)>> {
    match spec.components {
        Some(c) => Some(c.parameters@),
        None => None,
    }
}

/// The component request bodies of a document.
pub open spec fn component_bodies(spec: OpenApiV3Spec) -> Option<Seq<(String, ObjectOrReference<RequestBody>)>> {
    match spec.components {
        Some(c) => Some(c.request_bodies@),
        None => None,
    }
}

/// The component responses of a document.
pub open spec fn component_responses(spec: OpenApiV3Spec) -> Option<Seq<(String, ObjectOrReference<Response>)>> {
    match spec.components {
        Some(c) => Some(c.responses@),
        None => None,
    }
}

/// The component schema that a reference of the form
/// `#/components/schemas/` + name names.
pub open spec fn component_schema(spec: OpenApiV3Spec, path: Seq<char>) -> Option<Schema> {
    match spec.components {
        Some(c) => match strip_prefix(path, "#/components/schemas/"@) {
            Some(name) => entry(c.schemas@, name),
            None => None,
        },
        None => None,
    }
}

// ---------------------------------------------------------------- one operation

/// The listed form of a parameter.
pub open spec fn param_info_for(i: ParameterInfo, p: Parameter) -> bool {
    &&& i.name@ == p.name@
    &&& i.location@ == p.location.spec_name()
    &&& i.required == (match p.required {
        Some(b) => b,
        None => false,
    })
    &&& opt_view(i.schema_type) == opt_view(p.schema_type)
    &&& opt_view(i.description) == opt_view(p.description)
}

/// The first `n` parameters with references resolved; those that do not
/// resolve are left out.
pub open spec fn resolved_params(spec: OpenApiV3Spec, ps: Seq<ObjectOrReference<Parameter>>, n: int) -> Seq<Parameter>
    decreases n,
{
    if n <= 0 || n > ps.len() {
        Seq::empty()
    } else {
        let acc = resolved_params(spec, ps, n - 1);
        match resolved(component_parameters(spec), "#/components/parameters/"@, ps[n - 1]) {
            Some(p) => acc.push(p),
            None => acc,
        }
    }
}

/// The listed form of a request body.
pub open spec fn body_info_for(i: RequestBodyInfo, b: RequestBody) -> bool {
    &&& i.required == (match b.required {
        Some(x) => x,
        None => false,
    })
    &&& views_of(i.content_types@) == views_of(b.content_types@)
    &&& opt_view(i.description) == opt_view(b.description)
}

/// The request body of an operation, its reference resolved.
pub open spec fn resolved_body(spec: OpenApiV3Spec, op: Operation) -> Option<RequestBody> {
    match op.request_body {
        Some(r) => resolved(component_bodies(spec), "#/components/requestBodies/"@, r),
        None => None,
    }
}

/// Every character is an ASCII digit.
pub open spec fn all_digits(s: Seq<char>) -> bool {
    forall|k: int| 0 <= k < s.len() ==> '0' <= #[trigger] s[k] <= '9'
}

/// The first `n` status codes that are made of digits only.
pub open spec fn digit_codes(rs: Seq<(String, ObjectOrReference<Response>)>, n: int) -> Seq<Seq<char>>
    decreases n,
{
    if n <= 0 || n > rs.len() {
        Seq::empty()
    } else if all_digits(rs[n - 1].0@) {
        digit_codes(rs, n - 1).push(rs[n - 1].0@)
    } else {
        digit_codes(rs, n - 1)
    }
}

/// The response codes of an operation that are made of digits only.
pub open spec fn response_codes_of(op: Operation) -> Seq<Seq<char>> {
    match op.responses {
        Some(rs) => digit_codes(rs@, rs@.len() as int),
        None => Seq::empty(),
    }
}

/// A success status code: digits only, starting with `2`.
pub open spec fn success_code(s: Seq<char>) -> bool {
    s.len() > 0 && s[0] == '2' && all_digits(s)
}

/// The position of the first success response, from `from` on.
pub open spec fn first_success(rs: Seq<(String, ObjectOrReference<Response>)>, from: int) -> Option<int>
    decreases rs.len() - from,
{
    if from < 0 || from >= rs.len() {
        None
    } else if success_code(rs[from].0@) {
        Some(from)
    } else {
        first_success(rs, from + 1)
    }
}

/// The property names of an object schema, when there are any.
pub open spec fn object_props(os: ObjectSchema) -> Option<Seq<Seq<char>>> {
    if os.properties@.len() > 0 {
        Some(views_of(os.properties@))
    } else {
        None
    }
}

/// The property names of a body schema given in place or by a reference to
/// a component schema given in place, when there are any.
pub open spec fn schema_props(spec: OpenApiV3Spec, s: Option<Schema>) -> Option<Seq<Seq<char>>> {
    match s {
        Some(Schema::Object(ObjectOrReference::Object(os))) => object_props(os),
        Some(Schema::Object(ObjectOrReference::Ref(path))) => match component_schema(spec, path@) {
            Some(Schema::Object(ObjectOrReference::Object(os))) => object_props(os),
            _ => None,
        },
        _ => None,
    }
}

/// The property names of the schema of a response's first media type.
pub open spec fn media_props(spec: OpenApiV3Spec, r: Response) -> Option<Seq<Seq<char>>> {
    if r.content@.len() > 0 {
        schema_props(spec, r.content@[0].1.schema)
    } else {
        None
    }
}

/// The status code and property names of an operation's first success
/// response, its reference resolved.
pub open spec fn response_schema_of(spec: OpenApiV3Spec, op: Operation) -> Option<(Seq<char>, Seq<Seq<char>>)> {
    match op.responses {
        Some(rs) => match first_success(rs@, 0) {
            Some(i) => match resolved(component_responses(spec), "#/components/responses/"@, rs@[i].1) {
                Some(resp) => match media_props(spec, resp) {
                    Some(props) => Some((rs@[i].0@, props)),
                    None => None,
                },
                None => None,
            },
            None => None,
        },
        None => None,
    }
}

/// A listed response schema as plain values.
pub open spec fn schema_info_view(o: Option<ResponseSchemaInfo>) -> Option<(Seq<char>, Seq<Seq<char>>)> {
    match o {
        Some(i) => Some((i.status_code@, views_of(i.properties@))),
        None => None,
    }
}

/// A method's name in lower case.
pub open spec fn method_lower(m: HttpMethod) -> Seq<char> {
    match m {
        HttpMethod::Get => "get"@,
        HttpMethod::Put => "put"@,
        HttpMethod::Post => "post"@,
        HttpMethod::Delete => "delete"@,
        HttpMethod::Options => "options"@,
        HttpMethod::Head => "head"@,
        HttpMethod::Patch => "patch"@,
        HttpMethod::Trace => "trace"@,
    }
}

/// The identifier of an operation without one: document name, method and
/// path with `/` read as `_`, joined by `_`.
pub open spec fn default_operation_id(spec_name: Seq<char>, m: HttpMethod, path: Seq<char>) -> Seq<char> {
    spec_name + "_"@ + method_lower(m) + "_"@ + replace_char_spec(path, '/', "_"@)
}

/// The listed form of the operation under `m` at `path` in a document.
pub open spec fn operation_info_for(info: OperationInfo, spec_name: Seq<char>, spec: OpenApiV3Spec, path: Seq<char>, m: HttpMethod, op: Operation) -> bool {
    let params = resolved_params(spec, op.parameters@, op.parameters@.len() as int);
    &&& info.operation_id@ == (match op.operation_id {
        Some(id) => id@,
        None => default_operation_id(spec_name, m, path),
    })
    &&& info.method@ == m.spec_name()
    &&& info.path@ == path
    &&& opt_view(info.summary) == opt_view(op.summary)
    &&& opt_view(info.description) == opt_view(op.description)
    &&& info.parameters@.len() == params.len()
    &&& forall|k: int| 0 <= k < params.len() ==> param_info_for(#[trigger] info.parameters@[k], params[k])
    &&& match (info.request_body, resolved_body(spec, op)) {
        (Some(i), Some(b)) => body_info_for(i, b),
        (None, None) => true,
        _ => false,
    }
    &&& views_of(info.tags@) == views_of(op.tags@)
    &&& views_of(info.response_codes@) == response_codes_of(op)
    &&& schema_info_view(info.response_schema) == response_schema_of(spec, op)
}

// ---------------------------------------------------------------- all operations

/// The methods in the order the editor lists an item's operations.
pub open spec fn listing_methods() -> Seq<HttpMethod> {
    seq![
        HttpMethod::Get,
        HttpMethod::Post,
        HttpMethod::Put,
        HttpMethod::Delete,
        HttpMethod::Patch,
        HttpMethod::Options,
        HttpMethod::Head,
        HttpMethod::Trace,
    ]
}

/// Of the first `n` listing methods, those under which the item holds an
/// operation.
pub open spec fn item_methods(item: PathItem, n: int) -> Seq<HttpMethod>
    decreases n,
{
    if n <= 0 || n > listing_methods().len() {
        Seq::empty()
    } else if item.spec_operation(listing_methods()[n - 1]) is Some {
        item_methods(item, n - 1).push(listing_methods()[n - 1])
    } else {
        item_methods(item, n - 1)
    }
}

/// The paths of a document.
pub open spec fn spec_paths(spec: OpenApiV3Spec) -> Seq<(String, PathItem)> {
    match spec.paths {
        Some(p) => p@,
        None => Seq::empty(),
    }
}

/// The operations of the first `n` paths, as path positions and methods.
pub open spec fn path_hits(paths: Seq<(String, PathItem)>, n: int) -> Seq<(int, HttpMethod)>
    decreases n,
{
    if n <= 0 || n > paths.len() {
        Seq::empty()
    } else {
        path_hits(paths, n - 1) + item_methods(paths[n - 1].1, 8).map_values(|m: HttpMethod| (n - 1, m))
    }
}

/// The operations of the first `n` documents, as document positions, path
/// positions and methods.
pub open spec fn operation_hits(specs: Seq<(String, OpenApiV3Spec)>, n: int) -> Seq<(int, int, HttpMethod)>
    decreases n,
{
    if n <= 0 || n > specs.len() {
        Seq::empty()
    } else {
        let ps = spec_paths(specs[n - 1].1);
        operation_hits(specs, n - 1) + path_hits(ps, ps.len() as int).map_values(|h: (int, HttpMethod)| (n - 1, h.0, h.1))
    }
}

/// The listed form of the operation at a hit.
pub open spec fn hit_info(info: OperationInfo, specs: Seq<(String, OpenApiV3Spec)>, h: (int, int, HttpMethod)) -> bool {
    let spec = specs[h.0].1;
    let item = spec_paths(spec)[h.1];
    &&& item.1.spec_operation(h.2) is Some
    &&& operation_info_for(info, specs[h.0].0@, spec, item.0@, h.2, item.1.spec_operation(h.2).unwrap())
}

/// The listed operations of the documents: per document, per path in
/// document order, per method in listing order.
pub open spec fn operations_for(ops: Seq<OperationInfo>, specs: Seq<(String, OpenApiV3Spec)>) -> bool {
    let hits = operation_hits(specs, specs.len() as int);
    &&& ops.len() == hits.len()
    &&& forall|k: int| 0 <= k < hits.len() ==> hit_info(#[trigger] ops[k], specs, hits[k])
}


// ---------------------------------------------------------------- executable listing

/// Entries as they may be absent.
pub open spec fn opt_entries<T>(o: Option<&Vec<(String, T)>>) -> Option<Seq<(String, T)>> {
    match o {
        Some(v) => Some(v@),
        None => None,
    }
}

/// Optional texts as plain values.
pub open spec fn opt_views(o: Option<Vec<String>>) -> Option<Seq<Seq<char>>> {
    match o {
        Some(v) => Some(views_of(v@)),
        None => None,
    }
}

/// The position of the first entry named `k`.
fn find_entry<T>(es: &Vec<(String, T)>, k: &str) -> (r: Option<usize>)
    ensures
        match r {
            Some(i) => i < es@.len() && entry(es@, k@) == Some(es@[i as int].1),
            None => entry(es@, k@) is None,
        },
{
    let mut i: usize = 0;
    assert(es@.subrange(0, es@.len() as int) =~= es@);
    while i < es.len()
        invariant
            i <= es@.len(),
            entry(es@, k@) == entry(es@.subrange(i as int, es@.len() as int), k@),
        decreases es.len() - i,
    {
        let ghost rest = es@.subrange(i as int, es@.len() as int);
        assert(rest[0] == es@[i as int]);
        assert(rest.drop_first() =~= es@.subrange(i + 1, es@.len() as int));
        if crate::text::str_eq(es[i].0.as_str(), k) {
            return Some(i);
        }
        i = i + 1;
    }
    None
}

/// `s` without the prefix `p`, when it starts with it.
fn strip_prefix_of(s: &str, p: &str) -> (r: Option<String>)
    ensures
        opt_view(r) == strip_prefix(s@, p@),
{
    let c = chars_of(s);
    let q = chars_of(p);
    if starts_with(c.as_slice(), q.as_slice()) {
        Some(string_of(slice_from(c.as_slice(), q.len()).as_slice()))
    } else {
        None
    }
}

/// An object given in place, or the one a reference names among the
/// components.
fn resolve<'a, T>(components: Option<&'a Vec<(String, ObjectOrReference<T>)>>, prefix: &str, r: &'a ObjectOrReference<T>) -> (out: Option<&'a T>)
    ensures
        match out {
            Some(x) => resolved(opt_entries(components), prefix@, *r) == Some(*x),
            None => resolved(opt_entries(components), prefix@, *r) is None,
        },
{
    match r {
        ObjectOrReference::Object(x) => Some(x),
        ObjectOrReference::Ref(path) => match components {
            Some(cs) => match strip_prefix_of(path.as_str(), prefix) {
                Some(name) => match find_entry(cs, name.as_str()) {
                    Some(i) => match &cs[i].1 {
                        ObjectOrReference::Object(x) => Some(x),
                        _ => None,
                    },
                    None => None,
                },
                None => None,
            },
            None => None,
        },
    }
}

/// The listed form of a parameter.
fn param_info(p: &Parameter) -> (i: ParameterInfo)
    ensures
        param_info_for(i, *p),
{
    ParameterInfo {
        name: p.name.clone(),
        location: p.location.name(),
        required: match p.required {
            Some(b) => b,
            None => false,
        },
        schema_type: crate::graph::copy_opt_string(&p.schema_type),
        description: crate::graph::copy_opt_string(&p.description),
    }
}

/// The listed forms of an operation's parameters.
fn param_infos(spec: &OpenApiV3Spec, ps: &Vec<ObjectOrReference<Parameter>>) -> (r: Vec<ParameterInfo>)
    ensures
        r@.len() == resolved_params(*spec, ps@, ps@.len() as int).len(),
        forall|k: int| 0 <= k < r@.len() ==> param_info_for(#[trigger] r@[k], resolved_params(*spec, ps@, ps@.len() as int)[k]),
{
    let comps = match &spec.components {
        Some(c) => Some(&c.parameters),
        None => None,
    };
    assert(opt_entries(comps) == component_parameters(*spec));
    let mut r: Vec<ParameterInfo> = Vec::new();
    let mut n: usize = 0;
    while n < ps.len()
        invariant
            n <= ps@.len(),
            opt_entries(comps) == component_parameters(*spec),
            r@.len() == resolved_params(*spec, ps@, n as int).len(),
            forall|k: int| 0 <= k < r@.len() ==> param_info_for(#[trigger] r@[k], resolved_params(*spec, ps@, n as int)[k]),
        decreases ps.len() - n,
    {
        match resolve(comps, "#/components/parameters/", &ps[n]) {
            Some(p) => {
                proof { reveal_strlit("#/components/parameters/"); }
                r.push(param_info(p));
            },
            None => {
                proof { reveal_strlit("#/components/parameters/"); }
            },
        }
        n = n + 1;
    }
    r
}

/// The listed form of a request body.
fn body_info(b: &RequestBody) -> (i: RequestBodyInfo)
    ensures
        body_info_for(i, *b),
{
    RequestBodyInfo {
        required: match b.required {
            Some(x) => x,
            None => false,
        },
        content_types: crate::text::copy_strings(&b.content_types),
        description: crate::graph::copy_opt_string(&b.description),
    }
}

/// Whether every character is an ASCII digit.
fn is_all_digits(s: &str) -> (r: bool)
    ensures
        r == all_digits(s@),
{
    let c = chars_of(s);
    let mut i: usize = 0;
    while i < c.len()
        invariant
            i <= c@.len(),
            c@ == s@,
            forall|k: int| 0 <= k < i ==> '0' <= #[trigger] c@[k] <= '9',
        decreases c.len() - i,
    {
        if !('0' <= c[i] && c[i] <= '9') {
            return false;
        }
        i = i + 1;
    }
    true
}

/// The response codes of an operation that are made of digits only.
fn response_codes(op: &Operation) -> (r: Vec<String>)
    ensures
        views_of(r@) == response_codes_of(*op),
{
    let mut r: Vec<String> = Vec::new();
    match &op.responses {
        Some(rs) => {
            let mut n: usize = 0;
            assert(views_of(r@) =~= Seq::<Seq<char>>::empty());
            while n < rs.len()
                invariant
                    n <= rs@.len(),
                    views_of(r@) == digit_codes(rs@, n as int),
                decreases rs.len() - n,
            {
                if is_all_digits(rs[n].0.as_str()) {
                    let ghost before = r@;
                    r.push(rs[n].0.clone());
                    assert(views_of(r@) =~= views_of(before).push(rs@[n as int].0@));
                }
                n = n + 1;
            }
        },
        None => {
            assert(views_of(r@) =~= Seq::<Seq<char>>::empty());
        },
    }
    r
}

/// The property names of an object schema, when there are any.
fn object_properties(os: &ObjectSchema) -> (r: Option<Vec<String>>)
    ensures
        opt_views(r) == object_props(*os),
{
    if os.properties.len() > 0 {
        Some(crate::text::copy_strings(&os.properties))
    } else {
        None
    }
}

/// The property names of a body schema, a reference to a component schema
/// resolved.
fn schema_properties(spec: &OpenApiV3Spec, s: &Option<Schema>) -> (r: Option<Vec<String>>)
    ensures
        opt_views(r) == schema_props(*spec, *s),
{
    match s {
        Some(Schema::Object(ObjectOrReference::Object(os))) => object_properties(os),
        Some(Schema::Object(ObjectOrReference::Ref(path))) => match &spec.components {
            Some(c) => match strip_prefix_of(path.as_str(), "#/components/schemas/") {
                Some(name) => {
                    proof { reveal_strlit("#/components/schemas/"); }
                    match find_entry(&c.schemas, name.as_str()) {
                        Some(i) => match &c.schemas[i].1 {
                            Schema::Object(ObjectOrReference::Object(os)) => object_properties(os),
                            _ => None,
                        },
                        None => None,
                    }
                },
                None => {
                    proof { reveal_strlit("#/components/schemas/"); }
                    None
                },
            },
            None => None,
        },
        _ => None,
    }
}

/// The property names of the schema of a response's first media type.
fn media_properties(spec: &OpenApiV3Spec, r: &Response) -> (out: Option<Vec<String>>)
    ensures
        opt_views(out) == media_props(*spec, *r),
{
    if r.content.len() > 0 {
        schema_properties(spec, &r.content[0].1.schema)
    } else {
        None
    }
}

/// The position of the first success response.
fn find_success(rs: &Vec<(String, ObjectOrReference<Response>)>) -> (r: Option<usize>)
    ensures
        match r {
            Some(i) => i < rs@.len() && first_success(rs@, 0) == Some(i as int),
            None => first_success(rs@, 0) is None,
        },
{
    let mut i: usize = 0;
    while i < rs.len()
        invariant
            i <= rs@.len(),
            first_success(rs@, 0) == first_success(rs@, i as int),
        decreases rs.len() - i,
    {
        let c = chars_of(rs[i].0.as_str());
        if c.len() > 0 && c[0] == '2' && is_all_digits(rs[i].0.as_str()) {
            return Some(i);
        }
        i = i + 1;
    }
    None
}

/// The status code and property names of an operation's first success
/// response.
fn response_schema(spec: &OpenApiV3Spec, op: &Operation) -> (r: Option<ResponseSchemaInfo>)
    ensures
        schema_info_view(r) == response_schema_of(*spec, *op),
{
    match &op.responses {
        Some(rs) => match find_success(rs) {
            Some(i) => {
                let comps = match &spec.components {
                    Some(c) => Some(&c.responses),
                    None => None,
                };
                assert(opt_entries(comps) == component_responses(*spec));
                proof { reveal_strlit("#/components/responses/"); }
                match resolve(comps, "#/components/responses/", &rs[i].1) {
                    Some(resp) => match media_properties(spec, resp) {
                        Some(props) => Some(ResponseSchemaInfo { status_code: rs[i].0.clone(), properties: props }),
                        None => None,
                    },
                    None => None,
                }
            },
            None => None,
        },
        None => None,
    }
}

/// A method's name in lower case.
fn method_lower_name(m: HttpMethod) -> (s: String)
    ensures
        s@ == method_lower(m),
{
    match m {
        HttpMethod::Get => String::from_str("get"),
        HttpMethod::Put => String::from_str("put"),
        HttpMethod::Post => String::from_str("post"),
        HttpMethod::Delete => String::from_str("delete"),
        HttpMethod::Options => String::from_str("options"),
        HttpMethod::Head => String::from_str("head"),
        HttpMethod::Patch => String::from_str("patch"),
        HttpMethod::Trace => String::from_str("trace"),
    }
}

/// The listed form of the operation under `m` at `path` in a document.
pub fn operation_info(spec_name: &str, spec: &OpenApiV3Spec, path: &str, m: HttpMethod, op: &Operation) -> (info: OperationInfo)
    ensures
        operation_info_for(info, spec_name@, *spec, path@, m, *op),
{
    let operation_id = match &op.operation_id {
        Some(id) => id.clone(),
        None => {
            let mut s = crate::text::owned(spec_name);
            s.append("_");
            s.append(method_lower_name(m).as_str());
            s.append("_");
            let pc = chars_of(path);
            let us = chars_of("_");
            let replaced = replace_char(pc.as_slice(), '/', us.as_slice());
            s.append(string_of(replaced.as_slice()).as_str());
            s
        },
    };
    let request_body = match &op.request_body {
        Some(r) => {
            let comps = match &spec.components {
                Some(c) => Some(&c.request_bodies),
                None => None,
            };
            assert(opt_entries(comps) == component_bodies(*spec));
            proof { reveal_strlit("#/components/requestBodies/"); }
            match resolve(comps, "#/components/requestBodies/", r) {
                Some(b) => Some(body_info(b)),
                None => None,
            }
        },
        None => None,
    };
    OperationInfo {
        operation_id,
        method: m.name(),
        path: crate::text::owned(path),
        summary: crate::graph::copy_opt_string(&op.summary),
        description: crate::graph::copy_opt_string(&op.description),
        parameters: param_infos(spec, &op.parameters),
        request_body,
        tags: crate::text::copy_strings(&op.tags),
        response_codes: response_codes(op),
        response_schema: response_schema(spec, op),
    }
}


/// The listed operations of the documents: per document, per path in
/// document order, per method in the order get, post, put, delete, patch,
/// options, head, trace.
pub fn extract_operations(specs: &Vec<(String, OpenApiV3Spec)>) -> (ops: Vec<OperationInfo>)
    ensures
        operations_for(ops@, specs@),
{
    let hits = operation_positions(specs);
    let ghost hv = hits_view(hits@);
    let mut ops: Vec<OperationInfo> = Vec::new();
    let mut k: usize = 0;
    while k < hits.len()
        invariant
            k <= hits@.len(),
            hv == hits_view(hits@),
            hv == operation_hits(specs@, specs@.len() as int),
            forall|q: int| 0 <= q < hits@.len() ==> valid_hit(specs@, #[trigger] hv[q]),
            ops@.len() == k,
            forall|q: int| 0 <= q < k ==> hit_info(#[trigger] ops@[q], specs@, hv[q]),
        decreases hits.len() - k,
    {
        let (i, j, m) = hits[k];
        assert(valid_hit(specs@, hv[k as int]));
        let name = &specs[i].0;
        let spec = &specs[i].1;
        if let Some(paths) = &spec.paths {
            if let Some(op) = paths[j].1.operation(m) {
                ops.push(operation_info(name.as_str(), spec, paths[j].0.as_str(), m, op));
            }
        }
        k = k + 1;
    }
    ops
}

/// All operations of a project's documents.
pub fn list_operations(resolver: &OpenApiResolver) -> (r: OperationsResponse)
    ensures
        operations_for(r.operations@, resolver.specs@),
{
    OperationsResponse { operations: extract_operations(resolver.get_all_specs()) }
}


/// A hit names an operation of the documents.
pub open spec fn valid_hit(specs: Seq<(String, OpenApiV3Spec)>, h: (int, int, HttpMethod)) -> bool {
    &&& 0 <= h.0 < specs.len()
    &&& specs[h.0].1.paths is Some
    &&& 0 <= h.1 < spec_paths(specs[h.0].1).len()
    &&& spec_paths(specs[h.0].1)[h.1].1.spec_operation(h.2) is Some
}

/// Hits as plain values.
pub open spec fn hits_view(v: Seq<(usize, usize, HttpMethod)>) -> Seq<(int, int, HttpMethod)> {
    v.map_values(|h: (usize, usize, HttpMethod)| (h.0 as int, h.1 as int, h.2))
}

/// Where the operations of the documents are: per document, per path in
/// document order, per method in listing order.
pub fn operation_positions(specs: &Vec<(String, OpenApiV3Spec)>) -> (r: Vec<(usize, usize, HttpMethod)>)
    ensures
        hits_view(r@) == operation_hits(specs@, specs@.len() as int),
        forall|k: int| 0 <= k < r@.len() ==> valid_hit(specs@, #[trigger] hits_view(r@)[k]),
{
    let ms: Vec<HttpMethod> = vec![
        HttpMethod::Get,
        HttpMethod::Post,
        HttpMethod::Put,
        HttpMethod::Delete,
        HttpMethod::Patch,
        HttpMethod::Options,
        HttpMethod::Head,
        HttpMethod::Trace,
    ];
    assert(ms@ =~= listing_methods());
    let mut r: Vec<(usize, usize, HttpMethod)> = Vec::new();
    assert(hits_view(r@) =~= operation_hits(specs@, 0));
    let mut i: usize = 0;
    while i < specs.len()
        invariant
            i <= specs@.len(),
            ms@ == listing_methods(),
            hits_view(r@) == operation_hits(specs@, i as int),
            forall|q: int| 0 <= q < r@.len() ==> valid_hit(specs@, #[trigger] hits_view(r@)[q]),
        decreases specs.len() - i,
    {
        let spec = &specs[i].1;
        let ghost ps = spec_paths(*spec);
        let ghost base = operation_hits(specs@, i as int);
        let ghost tag = |h: (int, HttpMethod)| (i as int, h.0, h.1);
        match &spec.paths {
            Some(paths) => {
                let mut j: usize = 0;
                while j < paths.len()
                    invariant
                        i < specs@.len(),
                        j <= paths@.len(),
                        ms@ == listing_methods(),
                        *spec == specs@[i as int].1,
                        spec.paths == Some(*paths),
                        ps == paths@,
                        base == operation_hits(specs@, i as int),
                        tag == (|h: (int, HttpMethod)| (i as int, h.0, h.1)),
                        hits_view(r@) == base + path_hits(ps, j as int).map_values(tag),
                        forall|q: int| 0 <= q < r@.len() ==> valid_hit(specs@, #[trigger] hits_view(r@)[q]),
                    decreases paths.len() - j,
                {
                    let item = &paths[j].1;
                    let ghost before = path_hits(ps, j as int);
                    let ghost jtag = |m: HttpMethod| (j as int, m);
                    let mut k: usize = 0;
                    while k < ms.len()
                        invariant
                            i < specs@.len(),
                            j < paths@.len(),
                            k <= ms@.len(),
                            ms@ == listing_methods(),
                            *spec == specs@[i as int].1,
                            spec.paths == Some(*paths),
                            ps == paths@,
                            *item == ps[j as int].1,
                            base == operation_hits(specs@, i as int),
                            tag == (|h: (int, HttpMethod)| (i as int, h.0, h.1)),
                            before == path_hits(ps, j as int),
                            jtag == (|m: HttpMethod| (j as int, m)),
                            hits_view(r@) == base + (before + item_methods(*item, k as int).map_values(jtag)).map_values(tag),
                            forall|q: int| 0 <= q < r@.len() ==> valid_hit(specs@, #[trigger] hits_view(r@)[q]),
                        decreases ms.len() - k,
                    {
                        let m = ms[k];
                        let ghost old_r = r@;
                        match item.operation(m) {
                            Some(_) => {
                                r.push((i, j, m));
                                assert(item_methods(*item, k + 1) == item_methods(*item, k as int).push(m));
                                assert(hits_view(r@) =~= hits_view(old_r).push((i as int, j as int, m)));
                                assert(hits_view(r@) =~= base + (before + item_methods(*item, k + 1).map_values(jtag)).map_values(tag));
                                assert forall|q: int| 0 <= q < r@.len() implies valid_hit(specs@, #[trigger] hits_view(r@)[q]) by {
                                    if q < old_r.len() {
                                        assert(hits_view(r@)[q] == hits_view(old_r)[q]);
                                    }
                                }
                            },
                            None => {
                                assert(item_methods(*item, k + 1) == item_methods(*item, k as int));
                            },
                        }
                        k = k + 1;
                    }
                    proof {
                        assert(path_hits(ps, j + 1) == before + item_methods(*item, 8).map_values(jtag));
                    }
                    j = j + 1;
                }
                proof {
                    assert(operation_hits(specs@, i + 1) == base + path_hits(ps, ps.len() as int).map_values(tag));
                }
            },
            None => {
                assert(ps.len() == 0);
                assert(path_hits(ps, 0) =~= Seq::<(int, HttpMethod)>::empty());
                assert(operation_hits(specs@, i + 1) =~= base);
            },
        }
        i = i + 1;
    }
    r
}

} // verus!
