use hornet2::error::HornetError;
use hornet2::loader::openapi_resolver::OpenApiResolver;
use hornet2::loader::project::ProjectScanner;
use hornet2::loader::source_resolver::SourceDescriptionResolver;
use hornet2::models::arazzo::{ArazzoSpec, Info, SourceDescription};
use hornet2::models::openapi::{OpenApiV3Spec, Operation, PathItem};

fn s(x: &str) -> String {
    x.to_string()
}

fn spec_with_sources(sources: Vec<SourceDescription>) -> ArazzoSpec {
    ArazzoSpec {
        arazzo: s("1.0.0"),
        info: Info { title: s("Test"), summary: None, description: None, version: s("1.0.0") },
        source_descriptions: sources,
        workflows: vec![],
        components: None,
    }
}

fn source(name: &str, url: &str, ty: Option<&str>) -> SourceDescription {
    SourceDescription { name: s(name), url: s(url), source_type: ty.map(s) }
}

#[test]
fn test_new_resolver() {
    let resolver = SourceDescriptionResolver::new("/tmp/test/arazzo.yaml").unwrap();
    assert_eq!(resolver.arazzo_dir, "/tmp/test");
}

#[test]
fn test_resolve_relative_path() {
    let resolver = SourceDescriptionResolver::new("/tmp/test/arazzo.yaml").unwrap();
    let resolved = resolver.resolve_url("./openapi.yaml").unwrap();
    assert!(resolved.contains("openapi.yaml"));
}

#[test]
fn test_resolve_http_url_fails() {
    let resolver = SourceDescriptionResolver::new("/tmp/test/arazzo.yaml").unwrap();
    let result = resolver.resolve_url("https://example.com/openapi.yaml");
    assert!(result.is_err());
    assert!(result.unwrap_err().message().contains("HTTP(S) URLs are not yet supported"));
}

#[test]
fn test_resolve_absolute_path() {
    let resolver = SourceDescriptionResolver::new("/tmp/test/arazzo.yaml").unwrap();
    let resolved = resolver.resolve_url("/absolute/path/openapi.yaml").unwrap();
    assert_eq!(resolved, "/absolute/path/openapi.yaml");
}

#[test]
fn test_new_resolver_without_parent() {
    let err = SourceDescriptionResolver::new("/").err().unwrap();
    assert_eq!(err.message(), "Invalid path: Invalid Arazzo path: \"/\"");
}

#[test]
fn test_resolve_source_descriptions_empty() {
    let scanner = ProjectScanner::new(s("/tmp"));
    let spec = spec_with_sources(vec![]);
    let result = scanner.resolve_source_descriptions(&spec, "/tmp/p", &vec![]);
    assert!(result.is_err());
    assert!(result.unwrap_err().message().contains("must define sourceDescriptions"));
}

#[test]
fn test_resolve_source_descriptions_file_not_found() {
    let scanner = ProjectScanner::new(s("/tmp"));
    let spec = spec_with_sources(vec![source("missing-api", "./nonexistent.yaml", Some("openapi"))]);
    let result = scanner.resolve_source_descriptions(&spec, "/tmp/p", &vec![false]);
    assert!(result.is_err());
    let msg = result.unwrap_err().message();
    assert!(msg.contains("OpenAPI file not found"));
    assert!(msg.contains("/tmp/p/nonexistent.yaml (referenced in sourceDescriptions as 'missing-api')"));
}

#[test]
fn test_resolve_source_descriptions_external_url() {
    let scanner = ProjectScanner::new(s("/tmp"));
    let spec = spec_with_sources(vec![source("external-api", "https://example.com/openapi.yaml", Some("openapi"))]);
    let result = scanner.resolve_source_descriptions(&spec, "/tmp/p", &vec![true]);
    assert!(result.is_err());
    assert!(result.unwrap_err().message().contains("External OpenAPI URLs are not yet supported"));
}

#[test]
fn test_resolve_source_descriptions_multiple_files() {
    let scanner = ProjectScanner::new(s("/tmp"));
    let spec = spec_with_sources(vec![
        source("first-api", "./api1.yaml", Some("openapi")),
        source("second-api", "./api2.yaml", Some("openapi")),
    ]);
    let (paths, names) = scanner.resolve_source_descriptions(&spec, "/tmp/p", &vec![true, true]).unwrap();
    assert_eq!(paths, vec![s("/tmp/p/api1.yaml"), s("/tmp/p/api2.yaml")]);
    assert_eq!(names, vec![(s("/tmp/p/api1.yaml"), s("first-api")), (s("/tmp/p/api2.yaml"), s("second-api"))]);
}

#[test]
fn test_resolve_source_descriptions_all_non_openapi() {
    let scanner = ProjectScanner::new(s("/tmp"));
    let spec = spec_with_sources(vec![
        source("graphql-api", "./schema.graphql", Some("graphql")),
        source("grpc-api", "./service.proto", Some("grpc")),
    ]);
    let candidates = scanner.source_candidates(&spec, "/tmp/p");
    assert_eq!(candidates.len(), 0);
    let result = scanner.resolve_source_descriptions(&spec, "/tmp/p", &vec![]);
    assert!(result.unwrap_err().message().contains("No OpenAPI sources found"));
}

#[test]
fn test_resolve_source_descriptions_default_type() {
    let scanner = ProjectScanner::new(s("/tmp"));
    let spec = spec_with_sources(vec![source("default-api", "./openapi.yaml", None)]);
    let (paths, _) = scanner.resolve_source_descriptions(&spec, "/tmp/p", &vec![true]).unwrap();
    assert_eq!(paths, vec![s("/tmp/p/openapi.yaml")]);
}

fn api(id: &str) -> OpenApiV3Spec {
    let item = PathItem {
        get: None,
        put: Some(Operation { operation_id: Some(s(id)), summary: Some(s("sum")), description: None, tags: vec![], parameters: vec![], request_body: None, responses: None }),
        post: None,
        delete: None,
        options: None,
        head: None,
        patch: None,
        trace: None,
    };
    OpenApiV3Spec { openapi: s("3.0.0"), title: s("A"), servers: vec![], paths: Some(vec![(s("/items/{id}"), item)]), components: None }
}

#[test]
fn test_openapi_resolver_lookup() {
    let mut resolver = OpenApiResolver::new(s("/p"));
    resolver.insert_spec(s("a"), api("updateItem"));
    resolver.insert_spec(s("b"), api("other"));
    assert_eq!(resolver.list_files(), vec![s("a"), s("b")]);
    let found = resolver.find_operation("other").unwrap();
    assert_eq!((found.source_name.as_str(), found.method.as_str(), found.path.as_str()), ("b", "PUT", "/items/{id}"));
    assert!(resolver.find_operation("missing").is_none());
    let (r, op) = resolver.find_operation_with_details("updateItem").unwrap();
    assert_eq!(r.source_name, "a");
    assert_eq!(op.summary, Some(s("sum")));
    let (r, _) = resolver.find_operation_by_path_with_details("/items/{id}", "put").unwrap();
    assert_eq!(r.method, "PUT");
    assert!(resolver.find_operation_by_path_with_details("/items/{id}", "get").is_none());
    assert!(resolver.get_spec("b").is_some());
    resolver.insert_spec(s("a"), api("replaced"));
    assert_eq!(resolver.list_files().len(), 2);
    assert!(resolver.find_operation("updateItem").is_none());
    assert_eq!(resolver.extract_name("/x/y/petstore.yaml"), "petstore");
}

#[test]
fn error_messages_name_their_kind() {
    assert_eq!(HornetError::GraphError(s("x")).message(), "Graph generation error: x");
    assert_eq!(HornetError::IoError(s("y")).message(), "IO error: y");
}

#[test]
fn test_source_paths_plan() {
    let resolver = SourceDescriptionResolver::new("/tmp/test/arazzo.yaml").ok().unwrap();
    let sources = vec![
        source("api", "./openapi.yaml", None),
        source("other", "flows.yaml", Some("arazzo")),
        source("remote", "https://example.com/openapi.yaml", Some("openapi")),
        source("abs", "/specs/pets.yaml", Some("openapi")),
    ];
    let plan = resolver.source_paths(&sources);
    assert_eq!(plan.len(), 3);
    assert_eq!(plan[0].0, "api");
    assert_eq!(plan[0].2.as_ref().ok().unwrap(), "/tmp/test/./openapi.yaml");
    assert_eq!(plan[1].0, "remote");
    assert_eq!(
        plan[1].2.as_ref().err().unwrap().message(),
        "Invalid path: HTTP(S) URLs are not yet supported: https://example.com/openapi.yaml"
    );
    assert_eq!(plan[2].1, "/specs/pets.yaml");
    assert_eq!(plan[2].2.as_ref().ok().unwrap(), "/specs/pets.yaml");
}
