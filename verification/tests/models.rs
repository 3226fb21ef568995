use hornet2::models::arazzo::{ArazzoSpec, Info, SourceDescription, Step, Workflow};
use hornet2::models::openapi::{OpenApiV3Spec, Operation, PathItem};

fn s(x: &str) -> String {
    x.to_string()
}

fn step(id: &str, op: Option<&str>) -> Step {
    Step {
        step_id: s(id),
        description: None,
        operation_id: op.map(s),
        operation_path: None,
        workflow_id: None,
        parameters: vec![],
        request_body: None,
        success_criteria: None,
        on_success: None,
        on_failure: None,
        outputs: None,
    }
}

fn workflow(id: &str, steps: Vec<Step>) -> Workflow {
    Workflow {
        workflow_id: s(id),
        summary: None,
        description: None,
        inputs: None,
        steps,
        success_criteria: None,
        outputs: None,
        extensions: vec![],
    }
}

fn spec(version: &str, workflows: Vec<Workflow>) -> ArazzoSpec {
    ArazzoSpec {
        arazzo: s(version),
        info: Info { title: s("Test Workflow"), summary: None, description: None, version: s("1.0.0") },
        source_descriptions: vec![SourceDescription { name: s("api"), url: s("openapi.yaml"), source_type: None }],
        workflows,
        components: None,
    }
}

#[test]
fn test_load_valid_arazzo() {
    let sp = spec("1.0.0", vec![workflow("test-flow", vec![step("step1", Some("getTest"))])]);
    assert!(sp.validate().is_ok());
    assert_eq!(sp.info.title, "Test Workflow");
    assert_eq!(sp.workflows.len(), 1);
    assert_eq!(sp.workflows[0].workflow_id, "test-flow");
}

#[test]
fn arazzo_test_load_invalid_version() {
    let sp = spec("2.0.0", vec![workflow("test-flow", vec![step("step1", Some("getTest"))])]);
    assert!(sp.validate().is_err());
}

#[test]
fn test_load_duplicate_workflow_ids() {
    let sp = spec(
        "1.0.0",
        vec![workflow("test-flow", vec![step("step1", Some("getTest"))]), workflow("test-flow", vec![step("step2", Some("getOther"))])],
    );
    assert!(sp.validate().is_err());
}

#[test]
fn test_load_duplicate_step_ids() {
    let sp = spec("1.0.0", vec![workflow("test-flow", vec![step("step1", Some("getTest")), step("step1", Some("getOther"))])]);
    assert!(sp.validate().is_err());
}

#[test]
fn test_load_step_without_operation() {
    let mut st = step("step1", None);
    st.description = Some(s("A step without operation reference"));
    let sp = spec("1.0.0", vec![workflow("test-flow", vec![st])]);
    assert!(sp.validate().is_err());
}

fn openapi(version: &str, paths: Option<Vec<(String, PathItem)>>) -> OpenApiV3Spec {
    OpenApiV3Spec { openapi: s(version), title: s("Test API"), servers: vec![], paths, components: None }
}

fn item() -> PathItem {
    PathItem {
        get: Some(Operation { operation_id: Some(s("getTest")), summary: None, description: None, tags: vec![], parameters: vec![], request_body: None, responses: None }),
        put: None,
        post: None,
        delete: None,
        options: None,
        head: None,
        patch: None,
        trace: None,
    }
}

#[test]
fn test_load_valid_openapi() {
    let api = openapi("3.0.0", Some(vec![(s("/test"), item())]));
    assert!(api.validate().is_ok());
    assert_eq!(api.title, "Test API");
    assert_eq!(api.openapi, "3.0.0");
}

#[test]
fn openapi_test_load_invalid_version() {
    let api = openapi("2.0.0", Some(vec![(s("/test"), item())]));
    assert!(api.validate().is_err());
}

#[test]
fn test_load_no_paths() {
    assert!(openapi("3.0.0", Some(vec![])).validate().is_err());
    assert!(openapi("3.1.0", None).validate().is_err());
}
