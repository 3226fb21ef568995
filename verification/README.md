# hornet2

A toolkit for Arazzo workflow documents and the OpenAPI descriptions they
refer to: it checks workflows, builds and validates their flow graphs,
turns them into k6 scripts, serves an editor language server, and records
HTTP traffic from OpenTelemetry traces to infer OpenAPI documents, Arazzo
workflows and stubs.

The library is written in Verus. Each public function states what it
returns in its `ensures`, and the laws that relate several operations
(validation accepts exactly the well-formed documents, built graphs have no
cycles, what the stores give back of what was stored, how statistics count
spans) are proof functions named `law_*`.

## Layout

- `src/` — the verified library
  - `models/` — the Arazzo and OpenAPI models and their validation
  - `loader/` — locating and reading OpenAPI sources
  - `graph/` — flow graphs of workflows, their validation and drawing
  - `converters/` — k6 script generation
  - `lsp/` — completion, hover and message framing for the language server
  - `server/` — the logic behind the HTTP API
  - `tracer/` — span classification, OTLP bodies, session control, trace
    stores, and the generators that infer documents from recorded traffic
  - `runner/` — k6 command lines and the counts in a k6 run summary
  - `export.rs` — the tool's own descriptions in YAML or JSON
  - `json.rs`, `text.rs` — the JSON model and verified text operations
- `tests/` — tests of the library, run against the real outside crates
- `app/` — the command-line program: argument handling, files, the HTTP
  and language servers, and the SQLite trace store

Outside crates (`petgraph`, `regex`, `serde_json`, `serde_yaml`, `oas3`,
`prost`, `opentelemetry-proto`, `hex`, `base64`) are called from the
library through small trusted wrappers; each wrapper's doc comment says
what its contract claims of the outside function.
