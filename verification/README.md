# mcpo

An MCP-to-OpenAPI proxy: it exposes the tools of MCP servers (reached over stdio,
SSE or streamable HTTP) as HTTP endpoints described by OpenAPI 3.0 documents.

- `src/` is the verified library (Verus): the configuration model and its validation,
  the connection settings and transport choice, the JSON-RPC messages of the MCP
  client and the decisions of its transports (SSE endpoint discovery, stdio framing,
  streamable HTTP sessions), the OpenAPI document, the HTTP replies and pages, the routes under the path
  prefix, the API key guard (which endpoints it protects, with and without strict
  authentication), what a configuration reload adds, removes and reconnects, and the
  command line's own decisions. JSON values are modelled by
  `json::JsonValue`, whose numbers keep the text of their literal.
- `app/` is the program around it: command line parsing, file reading, JSON parsing
  and printing, the child processes and HTTP clients of the transports, the actix-web
  server and the file watcher.
- `tests/` exercises the library.
