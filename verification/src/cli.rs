//! The command line of the tool: its commands and their options.

use vstd::prelude::*;

verus! {

/// The parsed command line.
pub struct Cli {
    pub command: Commands,
}

/// The commands of the tool.
pub enum Commands {
    /// List workflows in an Arazzo file.
    List { arazzo: String },
    /// Validate an Arazzo file (OpenAPI documents from its source descriptions).
    Validate { arazzo: String },
    /// Visualize a workflow as a graph.
    Visualize { arazzo: String, format: OutputFormat, output: Option<String> },
    /// Start the web server (several projects), or the language server.
    Serve { root_dir: String, port: u16, lsp: bool },
    /// Convert Arazzo workflows to a test script.
    Convert {
        arazzo: String,
        to: String,
        output: Option<String>,
        workflow: Option<String>,
        base_url: Option<String>,
        vus: Option<u32>,
        duration: Option<String>,
        iterations: Option<u32>,
    },
    /// Run tests with an external engine.
    Run {
        arazzo: String,
        engine: String,
        workflow: Option<String>,
        base_url: Option<String>,
        vus: Option<u32>,
        duration: Option<String>,
        iterations: Option<u32>,
    },
    /// Export the tool's own API description in OpenAPI form.
    ExportOpenapi { format: ExportFormat, output: Option<String> },
    /// Export the tool's own Arazzo description.
    ExportArazzo { format: ExportFormat, output: Option<String> },
    /// Trace HTTP traffic.
    Trace { command: TraceCommands },
}

/// The trace commands.
pub enum TraceCommands {
    /// Start a new trace session.
    Start { name: Option<String>, otlp_port: u16, store_path: Option<String> },
    /// Stop the active trace session.
    Stop { session: Option<String> },
    /// List the trace sessions.
    List { active: bool, format: TraceListFormat },
    /// Show a trace session.
    Show { session_id: String, spans: bool, limit: u64 },
    /// Export a session as an OpenAPI document.
    ExportOpenapi { session_id: String, output: Option<String>, format: ExportFormat, infer_params: bool, infer_schemas: bool },
    /// Export a session as an Arazzo workflow.
    ExportArazzo { session_id: String, output: Option<String>, format: ExportFormat, workflow_name: Option<String> },
    /// Generate stubs of the dependencies of a session.
    ExportStubs { session_id: String, output_dir: String, format: StubFormat, host: Option<String> },
    /// Delete a trace session.
    Delete { session_id: String, force: bool },
}

/// Graph output formats.
#[derive(Debug, Clone, Copy, PartialEq, Eq, Structural)]
pub enum OutputFormat {
    Dot,
    Json,
    Mermaid,
}

/// Document output formats.
#[derive(Debug, Clone, Copy, PartialEq, Eq, Structural)]
pub enum ExportFormat {
    Yaml,
    Json,
}

/// Session list formats.
#[derive(Debug, Clone, Copy, PartialEq, Eq, Structural)]
pub enum TraceListFormat {
    Table,
    Json,
}

/// Stub formats.
#[derive(Debug, Clone, Copy, PartialEq, Eq, Structural)]
pub enum StubFormat {
    Wiremock,
    Prism,
    Native,
}

} // verus!
