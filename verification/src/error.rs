//! The library's error type.

use vstd::prelude::*;

verus! {

/// What went wrong, without the detail text.
#[derive(Clone, Copy, Debug, PartialEq, Eq, Structural)]
pub enum ErrorKind {
    OpenApiLoad,
    ArazzoLoad,
    Validation,
    Graph,
    Io,
    Yaml,
    Json,
    RuntimeExpr,
    EnvVarNotFound,
    OperationNotFound,
    InvalidPath,
}

/// Errors of loading, validating and converting workflows.
#[derive(Debug)]
pub enum HornetError {
    OpenApiLoadError(String),
    ArazzoLoadError(String),
    ValidationError(String),
    GraphError(String),
    IoError(String),
    YamlError(String),
    JsonError(String),
    RuntimeExprError(String),
    EnvVarNotFound(String),
    OperationNotFound(String),
    InvalidPath(String),
}

impl View for HornetError {
    type V = (ErrorKind, Seq<char>);

    open spec fn view(&self) -> (ErrorKind, Seq<char>) {
        match self {
            HornetError::OpenApiLoadError(m) => (ErrorKind::OpenApiLoad, m@),
            HornetError::ArazzoLoadError(m) => (ErrorKind::ArazzoLoad, m@),
            HornetError::ValidationError(m) => (ErrorKind::Validation, m@),
            HornetError::GraphError(m) => (ErrorKind::Graph, m@),
            HornetError::IoError(m) => (ErrorKind::Io, m@),
            HornetError::YamlError(m) => (ErrorKind::Yaml, m@),
            HornetError::JsonError(m) => (ErrorKind::Json, m@),
            HornetError::RuntimeExprError(m) => (ErrorKind::RuntimeExpr, m@),
            HornetError::EnvVarNotFound(m) => (ErrorKind::EnvVarNotFound, m@),
            HornetError::OperationNotFound(m) => (ErrorKind::OperationNotFound, m@),
            HornetError::InvalidPath(m) => (ErrorKind::InvalidPath, m@),
        }
    }
}

/// The text that introduces each kind of error in its message.
pub open spec fn kind_prefix(k: ErrorKind) -> Seq<char> {
    match k {
        ErrorKind::OpenApiLoad => "Failed to load OpenAPI file: "@,
        ErrorKind::ArazzoLoad => "Failed to load Arazzo file: "@,
        ErrorKind::Validation => "Validation error: "@,
        ErrorKind::Graph => "Graph generation error: "@,
        ErrorKind::Io => "IO error: "@,
        ErrorKind::Yaml => "YAML parse error: "@,
        ErrorKind::Json => "JSON error: "@,
        ErrorKind::RuntimeExpr => "Runtime expression error: "@,
        ErrorKind::EnvVarNotFound => "Environment variable not found: "@,
        ErrorKind::OperationNotFound => "Operation not found: "@,
        ErrorKind::InvalidPath => "Invalid path: "@,
    }
}

impl HornetError {
    /// An equal copy.
    pub fn copy(&self) -> (r: Self)
        ensures
            r@ == self@,
    {
        match self {
            HornetError::OpenApiLoadError(m) => HornetError::OpenApiLoadError(m.clone()),
            HornetError::ArazzoLoadError(m) => HornetError::ArazzoLoadError(m.clone()),
            HornetError::ValidationError(m) => HornetError::ValidationError(m.clone()),
            HornetError::GraphError(m) => HornetError::GraphError(m.clone()),
            HornetError::IoError(m) => HornetError::IoError(m.clone()),
            HornetError::YamlError(m) => HornetError::YamlError(m.clone()),
            HornetError::JsonError(m) => HornetError::JsonError(m.clone()),
            HornetError::RuntimeExprError(m) => HornetError::RuntimeExprError(m.clone()),
            HornetError::EnvVarNotFound(m) => HornetError::EnvVarNotFound(m.clone()),
            HornetError::OperationNotFound(m) => HornetError::OperationNotFound(m.clone()),
            HornetError::InvalidPath(m) => HornetError::InvalidPath(m.clone()),
        }
    }

    /// The error's message: its kind's introduction followed by the detail.
    pub fn message(&self) -> (s: String)
        ensures
            s@ == kind_prefix(self@.0) + self@.1,
    {
        let (prefix, detail) = match self {
            HornetError::OpenApiLoadError(m) => ("Failed to load OpenAPI file: ", m),
            HornetError::ArazzoLoadError(m) => ("Failed to load Arazzo file: ", m),
            HornetError::ValidationError(m) => ("Validation error: ", m),
            HornetError::GraphError(m) => ("Graph generation error: ", m),
            HornetError::IoError(m) => ("IO error: ", m),
            HornetError::YamlError(m) => ("YAML parse error: ", m),
            HornetError::JsonError(m) => ("JSON error: ", m),
            HornetError::RuntimeExprError(m) => ("Runtime expression error: ", m),
            HornetError::EnvVarNotFound(m) => ("Environment variable not found: ", m),
            HornetError::OperationNotFound(m) => ("Operation not found: ", m),
            HornetError::InvalidPath(m) => ("Invalid path: ", m),
        };
        let mut s = String::from_str(prefix);
        s.append(detail.as_str());
        s
    }
}

} // verus!
