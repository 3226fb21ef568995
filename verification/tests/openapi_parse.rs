use hornet2::error::HornetError;
use hornet2::loader::openapi::parse_openapi;
use hornet2::models::openapi::{ObjectOrReference, ParameterIn, Schema};

const PETS: &str = r##"
openapi: 3.0.3
info:
  title: Pets
  version: "1.0"
servers:
  - url: https://api.example.com
paths:
  /pets/{id}:
    get:
      operationId: getPet
      tags: [pets]
      parameters:
        - name: id
          in: path
          required: true
          schema:
            type: string
      responses:
        "200":
          description: ok
          content:
            application/json:
              schema:
                type: object
                properties:
                  name:
                    type: string
    post:
      operationId: updatePet
      requestBody:
        $ref: "#/components/requestBodies/Pet"
components:
  requestBodies:
    Pet:
      content:
        application/json: {}
"##;

#[test]
fn parse_openapi_reads_the_model() {
    let spec = parse_openapi(PETS).unwrap();
    assert_eq!(spec.openapi, "3.0.3");
    assert_eq!(spec.title, "Pets");
    assert_eq!(spec.servers, vec!["https://api.example.com".to_string()]);
    let paths = spec.paths.as_ref().unwrap();
    assert_eq!(paths.len(), 1);
    assert_eq!(paths[0].0, "/pets/{id}");
    let get = paths[0].1.get.as_ref().unwrap();
    assert_eq!(get.operation_id.as_deref(), Some("getPet"));
    assert_eq!(get.tags, vec!["pets".to_string()]);
    match &get.parameters[0] {
        ObjectOrReference::Object(p) => {
            assert_eq!(p.name, "id");
            assert_eq!(p.location, ParameterIn::Path);
            assert_eq!(p.required, Some(true));
            assert!(p.schema_type.is_some());
        }
        ObjectOrReference::Ref(_) => panic!("inline parameter expected"),
    }
    let responses = get.responses.as_ref().unwrap();
    assert_eq!(responses[0].0, "200");
    match &responses[0].1 {
        ObjectOrReference::Object(r) => {
            assert_eq!(r.description.as_deref(), Some("ok"));
            assert_eq!(r.content[0].0, "application/json");
            match &r.content[0].1.schema {
                Some(Schema::Object(ObjectOrReference::Object(o))) => assert_eq!(o.properties, vec!["name".to_string()]),
                _ => panic!("object schema expected"),
            }
        }
        ObjectOrReference::Ref(_) => panic!("inline response expected"),
    }
    let post = paths[0].1.post.as_ref().unwrap();
    match post.request_body.as_ref().unwrap() {
        ObjectOrReference::Ref(r) => assert_eq!(r, "#/components/requestBodies/Pet"),
        ObjectOrReference::Object(_) => panic!("reference expected"),
    }
    assert_eq!(spec.components.as_ref().unwrap().request_bodies[0].0, "Pet");
}

#[test]
fn parse_openapi_refuses_other_versions_and_no_paths() {
    let v2 = PETS.replace("openapi: 3.0.3", "openapi: 2.0.0");
    match parse_openapi(&v2) {
        Err(HornetError::ValidationError(m)) => {
            assert_eq!(m, "Unsupported OpenAPI version: 2.0.0. Only 3.0.x and 3.1.x are supported.")
        }
        _ => panic!("validation error expected"),
    }
    let empty = "openapi: 3.1.0\ninfo:\n  title: T\n  version: \"1\"\npaths: {}\n";
    match parse_openapi(empty) {
        Err(HornetError::ValidationError(m)) => assert_eq!(m, "OpenAPI spec must have at least one path"),
        _ => panic!("validation error expected"),
    }
}

#[test]
fn parse_openapi_reports_yaml_errors() {
    match parse_openapi("openapi: [unclosed") {
        Err(HornetError::OpenApiLoadError(m)) => assert!(m.starts_with("Failed to parse OpenAPI YAML: ")),
        _ => panic!("load error expected"),
    }
}
