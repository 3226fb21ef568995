use hornet2::converters::k6::K6Converter;
use hornet2::converters::{ConvertOptions, Converter};
use hornet2::json::{JsonNumber, JsonValue};
use hornet2::models::arazzo::{ArazzoSpec, Info, Parameter, RequestBody, Step, SuccessCriteria, Workflow};
use hornet2::models::openapi::{OpenApiV3Spec, Operation, PathItem};

fn s(x: &str) -> String {
    x.to_string()
}

fn op(id: &str) -> Option<Operation> {
    Some(Operation { operation_id: Some(s(id)), summary: None, description: None, tags: vec![], parameters: vec![], request_body: None, responses: None })
}

fn empty_item() -> PathItem {
    PathItem { get: None, put: None, post: None, delete: None, options: None, head: None, patch: None, trace: None }
}

fn api() -> OpenApiV3Spec {
    let mut register = empty_item();
    register.post = op("registerUser");
    let mut login = empty_item();
    login.post = op("loginUser");
    let mut users = empty_item();
    users.get = op("getUser");
    OpenApiV3Spec {
        openapi: s("3.0.0"),
        title: s("Test API"),
        servers: vec![s("http://api.example.com")],
        paths: Some(vec![(s("/register"), register), (s("/login"), login), (s("/users/{id}"), users)]),
        components: None,
    }
}

fn step(id: &str, op_id: Option<&str>) -> Step {
    Step {
        step_id: s(id),
        description: None,
        operation_id: op_id.map(s),
        operation_path: None,
        workflow_id: None,
        parameters: vec![],
        request_body: None,
        success_criteria: None,
        on_success: None,
        on_failure: None,
        outputs: None,
    }
}

fn workflow(id: &str, steps: Vec<Step>) -> Workflow {
    Workflow {
        workflow_id: s(id),
        summary: None,
        description: None,
        inputs: None,
        steps,
        success_criteria: None,
        outputs: None,
        extensions: vec![],
    }
}

#[test]
fn test_convert_runtime_expr() {
    assert_eq!(K6Converter::convert_runtime_expr("$inputs.username"), "inputs.username");
    assert_eq!(K6Converter::convert_runtime_expr("$steps.login.outputs.token"), "login_token");
    assert_eq!(K6Converter::convert_runtime_expr("$statusCode"), "response.status");
    assert_eq!(K6Converter::convert_runtime_expr("$response.body.id"), "response.json('id')");
}

#[test]
fn test_convert_runtime_expr_other_forms() {
    assert_eq!(K6Converter::convert_runtime_expr("$steps.a.b"), "a_b");
    assert_eq!(K6Converter::convert_runtime_expr("$response.header.X-Id"), "response.headers['X-Id']");
    assert_eq!(K6Converter::convert_runtime_expr("$url"), "\"$url\"");
}

#[test]
fn test_json_to_js() {
    let json = JsonValue::Object(vec![
        (s("name"), JsonValue::String(s("test"))),
        (s("value"), JsonValue::Number(JsonNumber::Int(42))),
    ]);
    let js = K6Converter::json_to_js(&json, 0);
    assert!(js.contains("\"name\": \"test\""));
    assert!(js.contains("\"value\": 42"));
    assert_eq!(js, "{\n  \"name\": \"test\",\n  \"value\": 42\n}");
}

#[test]
fn test_json_to_js_nested_and_escaped() {
    let json = JsonValue::Array(vec![
        JsonValue::String(s("a\"b\\c")),
        JsonValue::Array(vec![]),
        JsonValue::Object(vec![]),
        JsonValue::Null,
        JsonValue::Bool(true),
        JsonValue::String(s("$inputs.x")),
    ]);
    let js = K6Converter::json_to_js(&json, 1);
    assert_eq!(js, "[\n    \"a\\\"b\\\\c\",\n    [],\n    {},\n    null,\n    true,\n    inputs.x\n  ]");
}

#[test]
fn test_convert_value_with_expr() {
    let plain = JsonValue::String(s("hello"));
    assert_eq!(K6Converter::convert_value_with_expr(&plain), "\"hello\"");
    let pure = JsonValue::String(s("$inputs.name"));
    assert_eq!(K6Converter::convert_value_with_expr(&pure), "inputs.name");
    let embedded = JsonValue::String(s("Bearer $steps.login.outputs.token"));
    assert_eq!(K6Converter::convert_value_with_expr(&embedded), "`Bearer ${login_token}`");
    let two = JsonValue::String(s("a $inputs.x and $statusCode!"));
    assert_eq!(K6Converter::convert_value_with_expr(&two), "`a ${inputs.x} and ${response.status}!`");
    let number = JsonValue::Number(JsonNumber::Int(-7));
    assert_eq!(K6Converter::convert_value_with_expr(&number), "-7");
}

#[test]
fn test_generate_options() {
    let options = ConvertOptions { vus: Some(10), duration: Some(s("30s")), ..Default::default() };
    let code = K6Converter::generate_options(&options);
    assert!(code.contains("vus: 10"));
    assert!(code.contains("duration: '30s'"));
}

#[test]
fn test_generate_options_defaults() {
    let code = K6Converter::generate_options(&ConvertOptions::default());
    assert_eq!(code, "export let options = {\n  vus: 1,\n  iterations: 1,\n};\n");
    let code = K6Converter::generate_options(&ConvertOptions { iterations: Some(5), ..Default::default() });
    assert_eq!(code, "export let options = {\n  vus: 1,\n  iterations: 5,\n};\n");
}

#[test]
fn test_convert_context_to_js() {
    let c = K6Converter::new();
    assert_eq!(c.convert_context_to_js("$statusCode", "r"), "r.status");
    assert_eq!(c.convert_context_to_js("$response.body.id", "r"), "r.json('id')");
    assert_eq!(c.convert_context_to_js("$response.header.Location", "r"), "r.headers['Location']");
    assert_eq!(c.convert_context_to_js("$steps.a.outputs.b", "r"), "a_b");
    assert_eq!(c.convert_context_to_js("other", "r"), "\"other\"");
}

#[test]
fn test_generate_output_extraction() {
    let c = K6Converter::new();
    assert_eq!(c.generate_output_extraction("login", "token", "$response.body.token", "rv"), "  let login_token = rv.json('token');");
    assert_eq!(c.generate_output_extraction("s", "n", "$response.body.a.b", "rv"), "  let s_n = rv.json().a.b;");
    assert_eq!(c.generate_output_extraction("s", "all", "$response.body", "rv"), "  let s_all = rv.json();");
    assert_eq!(c.generate_output_extraction("s", "h", "$response.header.Etag", "rv"), "  let s_h = rv.headers['Etag'];");
}

#[test]
fn test_generate_checks() {
    let c = K6Converter::new();
    let criteria = vec![
        SuccessCriteria { context: s("$statusCode"), condition: s("=="), value: Some(JsonValue::Number(JsonNumber::Int(200))), criteria_type: None },
        SuccessCriteria { context: s("$response.body.ok"), condition: s("$ne"), value: None, criteria_type: None },
    ];
    assert_eq!(
        c.generate_checks(&criteria, "r"),
        "  check(r, {\n    'check_1': (r) => r.status === 200,\n    'check_2': (r) => r.json('ok') !== true\n  });"
    );
    assert_eq!(c.generate_checks(&[], "r"), "");
}

#[test]
fn test_generate_step_errors() {
    let c = K6Converter::new();
    let missing = step("a", Some("nope"));
    let err = c.generate_step(&missing, &api(), "http://x").unwrap_err();
    assert_eq!(err.message(), "Operation not found: Operation 'nope' not found");
    let bare = step("b", None);
    let err = c.generate_step(&bare, &api(), "http://x").unwrap_err();
    assert_eq!(err.message(), "Validation error: Step 'b' has no operationId or operationPath");
    let mut bad_path = step("c", None);
    bad_path.operation_path = Some(s("GET"));
    let err = c.generate_step(&bad_path, &api(), "http://x").unwrap_err();
    assert_eq!(err.message(), "Validation error: Invalid operationPath format: GET");
}

#[test]
fn test_generate_step_with_params_and_body() {
    let c = K6Converter::new();
    let mut st = step("getUser", Some("getUser"));
    st.parameters = vec![
        Parameter { name: s("id"), location: s("path"), value: JsonValue::String(s("$inputs.id")) },
        Parameter { name: s("X-Trace"), location: s("header"), value: JsonValue::String(s("abc")) },
    ];
    let code = c.generate_step(&st, &api(), "http://h").unwrap();
    assert_eq!(
        code,
        "  // Step: getUser\n  let getUser_response = http.get(`http://h/users/${inputs.id}`, {\n    headers: {\n      'X-Trace': \"abc\"\n    }\n  });\n"
    );
    let mut post = step("reg", None);
    post.operation_path = Some(s("post /register"));
    post.request_body = Some(RequestBody { content_type: None, payload: JsonValue::Object(vec![(s("n"), JsonValue::Bool(false))]) });
    post.parameters = vec![Parameter { name: s("q"), location: s("query"), value: JsonValue::String(s("1")) }];
    let code = c.generate_step(&post, &api(), "http://h").unwrap();
    assert_eq!(
        code,
        "  // Step: reg\n  let reg_response = http.post(`http://h/register?q=${\"1\"}`, JSON.stringify({\n  \"n\": false\n}), {\n    headers: {\n      'Content-Type': \"application/json\"\n    }\n  });\n"
    );
}

#[test]
fn test_convert_workflow() {
    let c = K6Converter::new();
    let mut login = step("login", Some("loginUser"));
    login.outputs = Some(JsonValue::Object(vec![(s("token"), JsonValue::String(s("$response.body.token")))]));
    let wf = workflow("user-flow", vec![step("register", Some("registerUser")), login]);
    let script = c.convert_workflow(&wf, &api(), &ConvertOptions::default()).unwrap();
    assert!(script.starts_with("// k6 script generated from Arazzo workflow: user-flow\n\nimport http from 'k6/http';"));
    assert!(script.contains("export default function"));
    assert!(!script.contains("registerUser"));
    assert!(script.contains("http://api.example.com/register"));
    assert!(script.contains("  let login_token = login_response.json('token');"));
    assert!(script.ends_with("  sleep(1);\n}"));
}

#[test]
fn test_convert_spec_several_workflows() {
    let c = K6Converter::new();
    let spec = ArazzoSpec {
        arazzo: s("1.0.0"),
        info: Info { title: s("t"), summary: None, description: None, version: s("1") },
        source_descriptions: vec![],
        workflows: vec![workflow("first-flow", vec![]), workflow("second", vec![])],
        components: None,
    };
    let script = c.convert_spec(&spec, &api(), &ConvertOptions::default()).unwrap();
    assert!(script.contains("// Contains 2 workflows"));
    assert!(script.contains("function first_flow() {"));
    assert!(script.contains("  first_flow();\n  second();\n  sleep(1);\n}"));
    let empty = ArazzoSpec { workflows: vec![], ..spec };
    assert_eq!(c.convert_spec(&empty, &api(), &ConvertOptions::default()).unwrap(), "");
}

#[test]
fn test_generate_inputs() {
    let wf = Workflow {
        inputs: Some(JsonValue::Object(vec![(
            s("properties"),
            JsonValue::Object(vec![
                (s("name"), JsonValue::Object(vec![(s("type"), JsonValue::String(s("string")))])),
                (s("count"), JsonValue::Object(vec![(s("type"), JsonValue::String(s("integer")))])),
                (s("flag"), JsonValue::Object(vec![(s("default"), JsonValue::Bool(true))])),
            ]),
        )])),
        ..workflow("w", vec![])
    };
    assert_eq!(
        K6Converter::generate_inputs(&wf),
        "  let inputs = {\n    name: \"\",\n    count: 0,\n    flag: true,\n  };\n"
    );
    assert_eq!(K6Converter::generate_inputs(&workflow("w", vec![])), "  let inputs = {};\n");
}

#[test]
fn test_convert_workflow_integration() {
    let wf = workflow("user-flow", vec![step("register", Some("registerUser")), step("login", Some("loginUser"))]);
    let converter = K6Converter::new();
    let options = ConvertOptions::default();
    let result = converter.convert_workflow(&wf, &api(), &options);
    assert!(result.is_ok());
    let script = result.ok().unwrap();
    assert!(script.contains("import http from 'k6/http'"));
    assert!(script.contains("export default function"));
    assert!(!script.contains("registerUser"));
    assert!(script.contains("/register") || script.contains("/login"));
}
