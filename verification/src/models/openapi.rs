//! The parts of an OpenAPI 3 document that workflows refer to: servers,
//! paths, and the operations under each path.

use vstd::prelude::*;
use crate::error::{ErrorKind, HornetError};
use crate::text::{chars_of, seq_starts_with, starts_with, str_eq};

verus! {

/// An HTTP method under which a path item can hold an operation.
#[derive(Debug, Clone, Copy, PartialEq, Eq, Structural)]
pub enum HttpMethod {
    Get,
    Put,
    Post,
    Delete,
    Options,
    Head,
    Patch,
    Trace,
}

impl HttpMethod {
    /// The method's name in upper case.
    pub open spec fn spec_name(self) -> Seq<char> {
        match self {
            HttpMethod::Get => "GET"@,
            HttpMethod::Put => "PUT"@,
            HttpMethod::Post => "POST"@,
            HttpMethod::Delete => "DELETE"@,
            HttpMethod::Options => "OPTIONS"@,
            HttpMethod::Head => "HEAD"@,
            HttpMethod::Patch => "PATCH"@,
            HttpMethod::Trace => "TRACE"@,
        }
    }

    /// The method's name in upper case.
    pub fn name(&self) -> (s: String)
        ensures
            s@ == self.spec_name(),
    {
        match self {
            HttpMethod::Get => String::from_str("GET"),
            HttpMethod::Put => String::from_str("PUT"),
            HttpMethod::Post => String::from_str("POST"),
            HttpMethod::Delete => String::from_str("DELETE"),
            HttpMethod::Options => String::from_str("OPTIONS"),
            HttpMethod::Head => String::from_str("HEAD"),
            HttpMethod::Patch => String::from_str("PATCH"),
            HttpMethod::Trace => String::from_str("TRACE"),
        }
    }
}

/// An object given in place, or a reference to one elsewhere in the document.
#[derive(Clone)]
pub enum ObjectOrReference<T> {
    Object(T),
    Ref(String),
}

/// Where a parameter is sent.
#[derive(Debug, Clone, Copy, PartialEq, Eq, Structural)]
pub enum ParameterIn {
    Path,
    Query,
    Header,
    Cookie,
}

impl ParameterIn {
    /// The location's name in lower case.
    pub open spec fn spec_name(self) -> Seq<char> {
        match self {
            ParameterIn::Path => "path"@,
            ParameterIn::Query => "query"@,
            ParameterIn::Header => "header"@,
            ParameterIn::Cookie => "cookie"@,
        }
    }

    /// The location's name in lower case.
    pub fn name(&self) -> (s: String)
        ensures
            s@ == self.spec_name(),
    {
        match self {
            ParameterIn::Path => String::from_str("path"),
            ParameterIn::Query => String::from_str("query"),
            ParameterIn::Header => String::from_str("header"),
            ParameterIn::Cookie => String::from_str("cookie"),
        }
    }
}

/// A parameter of an operation.
#[derive(Clone)]
pub struct Parameter {
    pub name: String,
    pub location: ParameterIn,
    pub required: Option<bool>,
    /// The type of the parameter's schema, as the schema model writes it,
    /// when the schema is given in place and names a type.
    pub schema_type: Option<String>,
    pub description: Option<String>,
}

/// A request body of an operation.
#[derive(Clone)]
pub struct RequestBody {
    pub description: Option<String>,
    /// The media types of its content, in document order.
    pub content_types: Vec<String>,
    pub required: Option<bool>,
}

/// An object schema: the names of its properties, in document order.
#[derive(Clone)]
pub struct ObjectSchema {
    pub properties: Vec<String>,
}

/// A schema: `true` or `false`, or an object schema given in place or by
/// reference.
#[derive(Clone)]
pub enum Schema {
    Boolean(bool),
    Object(ObjectOrReference<ObjectSchema>),
}

/// A media type of a body.
#[derive(Clone)]
pub struct MediaType {
    pub schema: Option<Schema>,
}

/// A response of an operation.
#[derive(Clone)]
pub struct Response {
    pub description: Option<String>,
    /// Its content by media type, in document order.
    pub content: Vec<(String, MediaType)>,
}

/// The reusable parts of a document, each by name in document order.
#[derive(Clone)]
pub struct Components {
    pub schemas: Vec<(String, Schema)>,
    pub responses: Vec<(String, ObjectOrReference<Response>)>,
    pub parameters: Vec<(String, ObjectOrReference<Parameter>)>,
    pub request_bodies: Vec<(String, ObjectOrReference<RequestBody>)>,
}

/// An operation: the parts of it that workflows and the editor read.
#[derive(Clone)]
pub struct Operation {
    pub operation_id: Option<String>,
    pub summary: Option<String>,
    pub description: Option<String>,
    pub tags: Vec<String>,
    pub parameters: Vec<ObjectOrReference<Parameter>>,
    pub request_body: Option<ObjectOrReference<RequestBody>>,
    /// The responses by status code, in document order.
    pub responses: Option<Vec<(String, ObjectOrReference<Response>)>>,
}

/// The operations available under one path.
#[derive(Clone)]
pub struct PathItem {
    pub get: Option<Operation>,
    pub put: Option<Operation>,
    pub post: Option<Operation>,
    pub delete: Option<Operation>,
    pub options: Option<Operation>,
    pub head: Option<Operation>,
    pub patch: Option<Operation>,
    pub trace: Option<Operation>,
}

/// An OpenAPI 3 document.
#[derive(Clone)]
pub struct OpenApiV3Spec {
    /// The OpenAPI version (e.g. "3.0.3").
    pub openapi: String,
    /// The title from the document's info object.
    pub title: String,
    /// The URLs of the document's servers, in order.
    pub servers: Vec<String>,
    /// The paths and their items, in document order.
    pub paths: Option<Vec<(String, PathItem)>>,
    pub components: Option<Components>,
}

impl PathItem {
    /// The operation held under `m`.
    pub open spec fn spec_operation(self, m: HttpMethod) -> Option<Operation> {
        match m {
            HttpMethod::Get => self.get,
            HttpMethod::Put => self.put,
            HttpMethod::Post => self.post,
            HttpMethod::Delete => self.delete,
            HttpMethod::Options => self.options,
            HttpMethod::Head => self.head,
            HttpMethod::Patch => self.patch,
            HttpMethod::Trace => self.trace,
        }
    }

    /// The operation held under `m`.
    pub fn operation(&self, m: HttpMethod) -> (r: Option<&Operation>)
        ensures
            match r {
                Some(op) => self.spec_operation(m) == Some(*op),
                None => self.spec_operation(m) is None,
            },
    {
        let slot = match m {
            HttpMethod::Get => &self.get,
            HttpMethod::Put => &self.put,
            HttpMethod::Post => &self.post,
            HttpMethod::Delete => &self.delete,
            HttpMethod::Options => &self.options,
            HttpMethod::Head => &self.head,
            HttpMethod::Patch => &self.patch,
            HttpMethod::Trace => &self.trace,
        };
        match slot {
            Some(op) => Some(op),
            None => None,
        }
    }

    /// The item holds, under `m`, an operation with this identifier.
    pub open spec fn has_operation_id(self, m: HttpMethod, id: Seq<char>) -> bool {
        match self.spec_operation(m) {
            Some(op) => match op.operation_id {
                Some(oid) => oid@ == id,
                None => false,
            },
            None => false,
        }
    }
}

/// The first method of `methods`, from position `k` on, under which `item`
/// holds the operation `id`.
pub open spec fn first_method_with(item: PathItem, methods: Seq<HttpMethod>, id: Seq<char>, k: int) -> Option<HttpMethod>
    decreases methods.len() - k,
{
    if k < 0 || k >= methods.len() {
        None
    } else if item.has_operation_id(methods[k], id) {
        Some(methods[k])
    } else {
        first_method_with(item, methods, id, k + 1)
    }
}

/// The first path, from position `j` on, holding the operation `id` under
/// one of `methods`, with the first such method (methods tried in the
/// order given within each path).
pub open spec fn first_operation_from(paths: Seq<(String, PathItem)>, methods: Seq<HttpMethod>, id: Seq<char>, j: int) -> Option<(int, HttpMethod)>
    decreases paths.len() - j,
{
    if j < 0 || j >= paths.len() {
        None
    } else {
        match first_method_with(paths[j].1, methods, id, 0) {
            Some(m) => Some((j, m)),
            None => first_operation_from(paths, methods, id, j + 1),
        }
    }
}

/// Whether `op` has the identifier `id`.
fn operation_has_id(op: &Operation, id: &str) -> (r: bool)
    ensures
        r == (match op.operation_id {
            Some(oid) => oid@ == id@,
            None => false,
        }),
{
    match &op.operation_id {
        Some(oid) => str_eq(oid.as_str(), id),
        None => false,
    }
}

/// The first method of `methods` under which `item` holds the operation `id`.
pub fn find_method(item: &PathItem, methods: &[HttpMethod], id: &str) -> (r: Option<HttpMethod>)
    ensures
        r == first_method_with(*item, methods@, id@, 0),
{
    let mut k: usize = 0;
    while k < methods.len()
        invariant
            k <= methods@.len(),
            first_method_with(*item, methods@, id@, 0) == first_method_with(
                *item,
                methods@,
                id@,
                k as int,
            ),
        decreases methods.len() - k,
    {
        let m = methods[k];
        match item.operation(m) {
            Some(op) => {
                if operation_has_id(op, id) {
                    return Some(m);
                }
            },
            None => {},
        }
        k = k + 1;
    }
    None
}

/// The first path holding the operation `id` under one of `methods`, with
/// that method.
pub fn find_operation_in(paths: &Vec<(String, PathItem)>, methods: &[HttpMethod], id: &str) -> (r: Option<(usize, HttpMethod)>)
    ensures
        match r {
            Some((j, m)) => first_operation_from(paths@, methods@, id@, 0) == Some((j as int, m)),
            None => first_operation_from(paths@, methods@, id@, 0) is None,
        },
{
    let mut j: usize = 0;
    while j < paths.len()
        invariant
            j <= paths@.len(),
            first_operation_from(paths@, methods@, id@, 0) == first_operation_from(
                paths@,
                methods@,
                id@,
                j as int,
            ),
        decreases paths.len() - j,
    {
        match find_method(&paths[j].1, methods, id) {
            Some(m) => {
                return Some((j, m));
            },
            None => {},
        }
        j = j + 1;
    }
    None
}

/// A method found by `first_method_with` holds the operation.
pub proof fn lemma_first_method_with(item: PathItem, methods: Seq<HttpMethod>, id: Seq<char>, k: int)
    requires
        first_method_with(item, methods, id, k) is Some,
    ensures
        item.has_operation_id(first_method_with(item, methods, id, k).unwrap(), id),
    decreases methods.len() - k,
{
    if !(k < 0 || k >= methods.len()) && !item.has_operation_id(methods[k], id) {
        lemma_first_method_with(item, methods, id, k + 1);
    }
}

/// A position found by `first_operation_from` lies in range, and the path
/// there holds the operation under the method found.
pub proof fn lemma_first_operation_bounds(paths: Seq<(String, PathItem)>, methods: Seq<HttpMethod>, id: Seq<char>, j: int)
    requires
        first_operation_from(paths, methods, id, j) is Some,
    ensures
        j <= first_operation_from(paths, methods, id, j).unwrap().0 < paths.len(),
        paths[first_operation_from(paths, methods, id, j).unwrap().0].1.has_operation_id(
            first_operation_from(paths, methods, id, j).unwrap().1,
            id,
        ),
    decreases paths.len() - j,
{
    if !(j < 0 || j >= paths.len()) {
        if first_method_with(paths[j].1, methods, id, 0) is None {
            lemma_first_operation_bounds(paths, methods, id, j + 1);
        } else {
            lemma_first_method_with(paths[j].1, methods, id, 0);
        }
    }
}

impl OpenApiV3Spec {
    /// Why the document is not supported, if it is not: a version other
    /// than 3.0.x or 3.1.x, or no paths.
    pub open spec fn failure(&self) -> Option<Seq<char>> {
        if !seq_starts_with(self.openapi@, "3.0"@) && !seq_starts_with(self.openapi@, "3.1"@) {
            Some("Unsupported OpenAPI version: "@ + self.openapi@
                + ". Only 3.0.x and 3.1.x are supported."@)
        } else if self.paths is None || self.paths.unwrap()@.len() == 0 {
            Some("OpenAPI spec must have at least one path"@)
        } else {
            None
        }
    }

    /// Checks the version (3.0.x or 3.1.x) and that some path is defined.
    pub fn validate(&self) -> (r: Result<(), HornetError>)
        ensures
            r is Ok <==> self.failure() is None,
            r matches Err(e) ==> e@ == (ErrorKind::Validation, self.failure().unwrap()),
    {
        let v = chars_of(self.openapi.as_str());
        let p30 = chars_of("3.0");
        let p31 = chars_of("3.1");
        if !starts_with(v.as_slice(), p30.as_slice()) && !starts_with(v.as_slice(), p31.as_slice()) {
            let mut m = String::from_str("Unsupported OpenAPI version: ");
            m.append(self.openapi.as_str());
            m.append(". Only 3.0.x and 3.1.x are supported.");
            return Err(HornetError::ValidationError(m));
        }
        let empty = match &self.paths {
            None => true,
            Some(p) => p.len() == 0,
        };
        if empty {
            return Err(HornetError::ValidationError(String::from_str("OpenAPI spec must have at least one path")));
        }
        Ok(())
    }
}

} // verus!
