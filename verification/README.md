# selector4nix

A Nix substituter proxy: it asks every configured substituter for a
`.narinfo` at once, serves the answer of the preferred one (among the
answers that came within a tolerance of the fastest, the lowest priority
value, then the lowest latency), skips substituters that failed until an
exponentially growing retry delay has passed, and streams NAR files, over
several byte ranges at once for large files.

## Layout

- `src/` is the library, verified with Verus: URL, store path hash and NAR
  file name parsing, narinfo reading and rewriting, substituter availability
  and backoff, the availability index, the choice among substituter answers,
  the planning of segmented downloads and the reordering buffer they feed,
  the rules of the HTTP endpoints, and the configuration defaults and checks.
- `app/` is the program around it: configuration file loading, the tokio
  tasks that run substituters and segmented downloads, HTTP requests with
  reqwest, and the axum server.
- `tests/` holds the tests of the library.
