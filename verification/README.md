# key_connector

A key connector for Vaultwarden / Bitwarden clients: it stores one opaque
base64 key blob per user, sealed with AES-256-GCM at rest, and hands it back
only to a caller whose RS256 access token names that user.

- `src/` is the library, written in Verus: configuration checking, bearer
  header parsing, token validation, sealing and opening of stored blobs, and
  the answers of the endpoints, each with its contract.
- `app/main.rs` is the service around it: environment, HTTP server (axum),
  SQLite store (sqlx) and identity provider discovery (reqwest).
- `tests/` exercises the library with real keys and tokens.
