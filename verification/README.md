# infolang

Client for the InfoLang semantic-memory gateway (`/v2` API), split in two:

- `src/` — the verified library (Verus). Every decision the client makes is
  here with a contract: credential, base-URL, namespace and workspace
  resolution (`auth`, `config`, `workspace`), request paths and JSON bodies
  (`request`), response parsing (`parse`, `health`), error rendering and
  classification (`error`, `transport`), the retry policy (`retry`), tag
  normalization (`types`), and the JSON and text models they are stated over
  (`json`, `text`). Laws that span several functions are public proof
  functions named `law_*`.
- `app/` — the async client around it: `reqwest` for HTTP, `tokio` for the
  retry sleeps and the workspace lock, `serde` for decoding into typed
  results, `thiserror` for the error types, and the floating-point fields
  (similarity scores, timings, `Retry-After`, back-off with jitter).
- `tests/` — tests of the library on concrete values.

The outside calls made from the verified library sit behind trusted
wrappers: `urlencoding::encode` (`text::percent_encode`),
`serde_json::from_slice` (`transport::parse_json_bytes`, used by
`transport::decode_body`) and std's `String::from_utf8_lossy` and
`String::push`.
