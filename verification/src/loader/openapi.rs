//! Reading OpenAPI documents: the YAML text parsed with `oas3`'s model,
//! carried over into this library's model, and checked.

use vstd::prelude::*;
use oas3::spec::{
    Components as Oas3Components, ObjectOrReference as Oas3Ref, Operation as Oas3Operation,
    Parameter as Oas3Parameter, ParameterIn as Oas3ParameterIn, PathItem as Oas3PathItem,
    RequestBody as Oas3RequestBody, Response as Oas3Response, Schema as Oas3Schema, Spec as Oas3Spec,
};
use crate::error::{ErrorKind, HornetError};
use crate::models::openapi as model;

verus! {

/// An OpenAPI document of the `oas3` crate, held opaque.
#[verifier::external_type_specification]
#[verifier::external_body]
pub struct ExOas3Spec(Oas3Spec);

/// An `oas3` path item, held opaque.
#[verifier::external_type_specification]
#[verifier::external_body]
pub struct ExOas3PathItem(Oas3PathItem);

/// An `oas3` operation, held opaque.
#[verifier::external_type_specification]
#[verifier::external_body]
pub struct ExOas3Operation(Oas3Operation);

/// An `oas3` parameter, held opaque.
#[verifier::external_type_specification]
#[verifier::external_body]
pub struct ExOas3Parameter(Oas3Parameter);

/// An `oas3` request body, held opaque.
#[verifier::external_type_specification]
#[verifier::external_body]
pub struct ExOas3RequestBody(Oas3RequestBody);

/// An `oas3` response, held opaque.
#[verifier::external_type_specification]
#[verifier::external_body]
pub struct ExOas3Response(Oas3Response);

/// An `oas3` schema, held opaque.
#[verifier::external_type_specification]
#[verifier::external_body]
pub struct ExOas3Schema(Oas3Schema);

/// An `oas3` components object, held opaque.
#[verifier::external_type_specification]
#[verifier::external_body]
pub struct ExOas3Components(Oas3Components);

/// An `oas3` object or reference to one, held opaque.
#[verifier::external_type_specification]
#[verifier::external_body]
#[verifier::reject_recursive_types(T)]
pub struct ExOas3ObjectOrReference<T>(Oas3Ref<T>);

/// What `serde_yaml` reads a text as, as an `oas3` OpenAPI document carried
/// over into this library's model, or the text of its error.
pub uninterp spec fn yaml_openapi(text: Seq<char>) -> Result<model::OpenApiV3Spec, Seq<char>>;

/// `serde_yaml::from_str` into `oas3::OpenApiV3Spec`, the document carried
/// over one for one into this library's model; on failure, the text of the
/// error. Both are named, not restated.
#[verifier::external_body]
pub fn parse_openapi_yaml(text: &str) -> (r: Result<model::OpenApiV3Spec, String>)
    ensures
        match r {
            Ok(s) => yaml_openapi(text@) == Ok::<model::OpenApiV3Spec, Seq<char>>(s),
            Err(e) => yaml_openapi(text@) == Err::<model::OpenApiV3Spec, Seq<char>>(e@),
        },
{
    match serde_yaml::from_str::<oas3::OpenApiV3Spec>(text) {
        Ok(doc) => Ok(from_oas3(&doc)),
        Err(e) => Err(e.to_string()),
    }
}

/// The message for a text that is not an OpenAPI document.
pub open spec fn parse_failure(e: Seq<char>) -> Seq<char> {
    "Failed to parse OpenAPI YAML: "@ + e
}

/// Reads an OpenAPI document from YAML text and checks it: a parse error,
/// then an unsupported version or no paths, are the errors.
pub fn parse_openapi(text: &str) -> (r: Result<model::OpenApiV3Spec, HornetError>)
    ensures
        match yaml_openapi(text@) {
            Err(e) => r matches Err(err) && err@ == (ErrorKind::OpenApiLoad, parse_failure(e)),
            Ok(s) => match s.failure() {
                Some(m) => r matches Err(err) && err@ == (ErrorKind::Validation, m),
                None => r == Ok::<model::OpenApiV3Spec, HornetError>(s),
            },
        },
{
    match parse_openapi_yaml(text) {
        Err(e) => {
            let mut m = String::from_str("Failed to parse OpenAPI YAML: ");
            m.append(e.as_str());
            Err(HornetError::OpenApiLoadError(m))
        },
        Ok(s) => match s.validate() {
            Ok(()) => Ok(s),
            Err(e) => Err(e),
        },
    }
}

/// An `oas3` document as a value of this library, one for one.
#[verifier::external_body]
fn from_oas3(s: &Oas3Spec) -> model::OpenApiV3Spec {
    model::OpenApiV3Spec {
        openapi: s.openapi.clone(),
        title: s.info.title.clone(),
        servers: s.servers.iter().map(|srv| srv.url.clone()).collect(),
        paths: s.paths.as_ref().map(|ps| ps.iter().map(|(k, p)| (k.clone(), from_oas3_path_item(p))).collect()),
        components: s.components.as_ref().map(from_oas3_components),
    }
}

/// An `oas3` object or reference as a value of this library, one for one.
#[verifier::external_body]
fn from_oas3_ref<T, U, F: Fn(&T) -> U>(o: &Oas3Ref<T>, f: F) -> model::ObjectOrReference<U> {
    match o {
        Oas3Ref::Ref { ref_path, .. } => model::ObjectOrReference::Ref(ref_path.clone()),
        Oas3Ref::Object(t) => model::ObjectOrReference::Object(f(t)),
    }
}

/// An `oas3` path item as a value of this library, one for one.
#[verifier::external_body]
fn from_oas3_path_item(p: &Oas3PathItem) -> model::PathItem {
    model::PathItem {
        get: p.get.as_ref().map(from_oas3_operation),
        put: p.put.as_ref().map(from_oas3_operation),
        post: p.post.as_ref().map(from_oas3_operation),
        delete: p.delete.as_ref().map(from_oas3_operation),
        options: p.options.as_ref().map(from_oas3_operation),
        head: p.head.as_ref().map(from_oas3_operation),
        patch: p.patch.as_ref().map(from_oas3_operation),
        trace: p.trace.as_ref().map(from_oas3_operation),
    }
}

/// An `oas3` operation as a value of this library, one for one.
#[verifier::external_body]
fn from_oas3_operation(o: &Oas3Operation) -> model::Operation {
    model::Operation {
        operation_id: o.operation_id.clone(),
        summary: o.summary.clone(),
        description: o.description.clone(),
        tags: o.tags.clone(),
        parameters: o.parameters.iter().map(|p| from_oas3_ref(p, from_oas3_parameter)).collect(),
        request_body: o.request_body.as_ref().map(|b| from_oas3_ref(b, from_oas3_request_body)),
        responses: o.responses.as_ref().map(
            |rs| rs.iter().map(|(c, r)| (c.clone(), from_oas3_ref(r, from_oas3_response))).collect(),
        ),
    }
}

/// An `oas3` parameter as a value of this library, one for one.
#[verifier::external_body]
fn from_oas3_parameter(p: &Oas3Parameter) -> model::Parameter {
    model::Parameter {
        name: p.name.clone(),
        location: match p.location {
            Oas3ParameterIn::Path => model::ParameterIn::Path,
            Oas3ParameterIn::Query => model::ParameterIn::Query,
            Oas3ParameterIn::Header => model::ParameterIn::Header,
            Oas3ParameterIn::Cookie => model::ParameterIn::Cookie,
        },
        required: p.required,
        schema_type: p.schema.as_ref().and_then(from_oas3_schema_type),
        description: p.description.clone(),
    }
}

/// The type of an inline object schema, in its debug notation.
#[verifier::external_body]
fn from_oas3_schema_type(s: &Oas3Schema) -> Option<String> {
    match s {
        Oas3Schema::Object(o) => match o.as_ref() {
            Oas3Ref::Object(x) => x.schema_type.as_ref().map(|t| format!("{:?}", t)),
            Oas3Ref::Ref { .. } => None,
        },
        Oas3Schema::Boolean(_) => None,
    }
}

/// An `oas3` request body as a value of this library, one for one.
#[verifier::external_body]
fn from_oas3_request_body(b: &Oas3RequestBody) -> model::RequestBody {
    model::RequestBody {
        description: b.description.clone(),
        content_types: b.content.keys().cloned().collect(),
        required: b.required,
    }
}

/// An `oas3` response as a value of this library, one for one.
#[verifier::external_body]
fn from_oas3_response(r: &Oas3Response) -> model::Response {
    model::Response {
        description: r.description.clone(),
        content: r.content.iter().map(
            |(k, m)| (k.clone(), model::MediaType { schema: m.schema.as_ref().map(from_oas3_schema) }),
        ).collect(),
    }
}

/// An `oas3` schema as a value of this library, one for one: the names of
/// an inline object schema's properties.
#[verifier::external_body]
fn from_oas3_schema(s: &Oas3Schema) -> model::Schema {
    match s {
        Oas3Schema::Boolean(b) => model::Schema::Boolean(b.0),
        Oas3Schema::Object(o) => model::Schema::Object(
            from_oas3_ref(o.as_ref(), |x| model::ObjectSchema { properties: x.properties.keys().cloned().collect() }),
        ),
    }
}

/// An `oas3` components object as a value of this library, one for one.
#[verifier::external_body]
fn from_oas3_components(c: &Oas3Components) -> model::Components {
    model::Components {
        schemas: c.schemas.iter().map(|(k, s)| (k.clone(), from_oas3_schema(s))).collect(),
        responses: c.responses.iter().map(|(k, r)| (k.clone(), from_oas3_ref(r, from_oas3_response))).collect(),
        parameters: c.parameters.iter().map(|(k, p)| (k.clone(), from_oas3_ref(p, from_oas3_parameter))).collect(),
        request_bodies: c.request_bodies.iter().map(
            |(k, b)| (k.clone(), from_oas3_ref(b, from_oas3_request_body)),
        ).collect(),
    }
}

} // verus!
