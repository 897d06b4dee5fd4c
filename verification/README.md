# Volter

Volter is an async web framework on hyper, tokio and tower.  This crate is
its decision-making core, verified with Verus: every routing, CORS,
rate-limit, body-limit, request-id and extractor decision is an executable
function with a `requires`/`ensures` contract, and the properties the
framework promises across calls (the last merged router wins, a window
admits at most its limit, a disallowed origin gets no CORS header, ...) are
proof functions.

## Layout

- `src/` — the verified library.
  - `pattern.rs`, `prefix.rs`, `routing.rs` — route patterns, nest
    prefixes, method routers and the route table with its dispatch.
  - `cors.rs`, `rate_limit.rs`, `layers.rs`, `request_id.rs` — middleware
    configuration and decisions.
  - `extract.rs` — extractor types and the request checks behind their
    rejections.
  - `scaffold.rs` — `volter new`: name checks and project templates.
  - `testing.rs` — the response type of the test client.
  - `text.rs`, `seqs.rs`, `time.rs` — string, sequence and duration helpers.
- `tests/` — tests of the library.
- `app/` — the server side around the library: tower services and layers,
  hyper serving, the in-process test client, WebSockets and the command
  line.  It calls the library for every decision.
