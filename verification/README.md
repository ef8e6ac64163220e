# scim

A SCIM 2.0 identity store (users and groups) with its HTTP API and control RPC service,
verified with Verus.

Layout:

- `src/database.rs` — the store: users and groups keyed by generated ids, user names and
  group display names unique up to ASCII case, membership clean-up on user removal,
  sorted, filtered and paged listings.
- `src/filter.rs` — SCIM filters `attr eq value` / `attr co value` and what they select.
- `src/http_server.rs` — the SCIM HTTP API as request-to-response functions.
- `src/grpc_server.rs`, `src/proto.rs` — the control RPC service and its messages.
- `src/client.rs` — the requests that the control client's commands send.
- `src/scim_schemas.rs`, `src/settings.rs`, `src/clock.rs`, `src/text.rs` — resource shapes,
  settings, timestamps, string facts.
- `src/laws.rs` — properties that span operations.
- `app/` — the server program: command line, configuration file, axum HTTP server.
