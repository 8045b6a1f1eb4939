# ai_search_mcp

An MCP server that answers web-search questions through any OpenAI-compatible
chat API, over stdio or HTTP/SSE. The decisions of the server are a library
verified with Verus; the program around it does the I/O.

## Layout

- `src/` — the verified library.
  - `text.rs`, `number.rs`: string and decimal operations with their
    specifications (trim, split, replace, lines, parse/format of integers).
  - `config_file.rs`, `config.rs`: the configuration file's defaults and
    checks, the configuration from the file or the environment, and its
    redacted debug text.
  - `chat.rs`: chat requests and answers, and the decoder of streamed answers.
  - `client.rs`: endpoints, request bodies, retries, the thinking filter,
    query splitting and the assembly of sub-answers.
  - `mcp.rs`, `models.rs`, `error.rs`, `error_codes.rs`: JSON-RPC routing and
    error answers, HTTP answers and the error type.
  - `middleware.rs`, `sse.rs`, `session.rs`: access decisions, the SSE
    connection limit and the MCP session table.
  - `daemon.rs`, `config_ui.rs`, `time_format.rs`: the PID file, the web
    configuration interface, and log timestamps.
- `tests/` — tests of the library.
- `app/` — the server program: HTTP routes, streams, files, processes and the
  command line, calling the library for each decision.

## Verifying

The library is verified with Verus (`verus src/lib.rs` with the outside crates
of `Cargo.toml`); the tests run with `cargo test`.
