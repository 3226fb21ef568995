use hornet2::error::HornetError;
use hornet2::export::export_document;

const DOC: &str = "arazzo: 1.0.0\ninfo:\n  title: Demo\n  version: \"1\"\nlist:\n  - 1\n  - two\n";

#[test]
fn export_as_yaml_gives_the_document() {
    assert_eq!(export_document(DOC, "Arazzo", "yaml").unwrap(), DOC);
}

#[test]
fn export_as_json_gives_indented_json() {
    let t = export_document(DOC, "Arazzo", "json").unwrap();
    let v: serde_json::Value = serde_json::from_str(&t).unwrap();
    assert_eq!(v["info"]["title"], "Demo");
    assert_eq!(v["list"][1], "two");
    assert!(t.contains("\n  \"arazzo\": \"1.0.0\""));
}

#[test]
fn export_errors() {
    match export_document("a: [", "Arazzo", "json") {
        Err(HornetError::ValidationError(m)) => assert!(m.starts_with("Failed to parse Arazzo YAML: ")),
        _ => panic!("parse error expected"),
    }
    match export_document(DOC, "Arazzo", "xml") {
        Err(HornetError::ValidationError(m)) => assert_eq!(m, "Unsupported format: xml"),
        _ => panic!("format error expected"),
    }
}
