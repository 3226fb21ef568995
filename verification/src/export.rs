//! Exporting the tool's own descriptions in the format asked for.

use vstd::prelude::*;
use crate::error::{ErrorKind, HornetError};
use crate::json::{yaml_json_text, yaml_to_json_text};
use crate::text::str_eq;

verus! {

/// What exporting a YAML document `yaml`, described as `label`, in
/// `format` gives: the YAML itself for `yaml`, the document as indented JSON
/// for `json`, and otherwise the error kind and message.
pub open spec fn exported(yaml: Seq<char>, label: Seq<char>, format: Seq<char>) -> Result<Seq<char>, (ErrorKind, Seq<char>)> {
    if format == "json"@ {
        match yaml_json_text(yaml) {
            Ok(t) => Ok(t),
            Err(e) => Err((ErrorKind::Validation, "Failed to parse "@ + label + " YAML: "@ + e)),
        }
    } else if format == "yaml"@ {
        Ok(yaml)
    } else {
        Err((ErrorKind::Validation, "Unsupported format: "@ + format))
    }
}

/// The text of a YAML document, described as `label`, in `format`
/// (`json` or `yaml`).
pub fn export_document(yaml: &str, label: &str, format: &str) -> (r: Result<String, HornetError>)
    ensures
        match exported(yaml@, label@, format@) {
            Ok(t) => r matches Ok(s) && s@ == t,
            Err(e) => r matches Err(err) && err@ == e,
        },
{
    if str_eq(format, "json") {
        match yaml_to_json_text(yaml) {
            Ok(t) => Ok(t),
            Err(e) => {
                let mut m = String::from_str("Failed to parse ");
                m.append(label);
                m.append(" YAML: ");
                m.append(e.as_str());
                Err(HornetError::ValidationError(m))
            },
        }
    } else if str_eq(format, "yaml") {
        Ok(String::from_str(yaml))
    } else {
        let mut m = String::from_str("Unsupported format: ");
        m.append(format);
        Err(HornetError::ValidationError(m))
    }
}

} // verus!
