# symtrace-mcp

An MCP (Model Context Protocol) server that answers code-navigation questions —
references, definitions, implementations, call hierarchies, hover, diagnostics and
rename — by driving language servers (rust-analyzer, typescript-language-server) over
the Language Server Protocol. Servers start on first use and stop when idle.

## Layout

- `src/` — the library, verified with Verus: the JSON model, LSP framing and message
  routing, request parameters, the file synchronisation plan, server configurations and
  project routing, idle decisions, MCP routing and tool answers, the usage-statistics
  summaries and report lines, calendar arithmetic for log names and timestamps.
- `app/` — the program around it: stdin/stdout, child processes, the async runtime,
  the statistics database, logging, configuration parsing, and the conversions between
  `serde_json` values and the library's JSON model.
- `tests/` — tests of the library.
