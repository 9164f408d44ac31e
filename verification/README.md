# dbwrap

A key-value store facade whose values carry a one-byte *data level*. Every
stored value is framed as `[b'\n', level, b'\n', data...]`; data may replace a
stored value only when its level is not above the stored one, unless the write
is forced.

Layout:

- `src/` — the verified library:
  - `level.rs`: the level framing (`DataLevel`), `check_level`, and the laws of
    the framing;
  - `store.rs`: the decisions around each store operation — accepted database
    paths, what a put writes, what a get returns, batch puts, and prefix searches
    (the keys whose value begins with the prefix);
  - `config.rs`: the engine options, their defaults and the settings they resolve to;
  - `server.rs`: the server configuration, requests, token check and reply text;
  - `utils.rs`: SHA-256 and hex display helpers;
  - `redact.rs`: the debug text of requests, with the token left out;
  - `error.rs`, `text.rs`: the error type and small string helpers.
- `app/` — the storage engine (RocksDB), the HTTP server (axum/tokio) and the
  configuration file, which drive the library.
- `tests/` — tests of the library.
