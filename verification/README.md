# CacheMe

A caching HTTP proxy. Requests are routed by host, method and path; answers of the origin are kept
on disk for as long as they are fresh, and served from there, whole or in part, compressed with gzip
for those who take that. What is no longer fresh is collected at intervals.

The decisions are a library that is proved correct with Verus (`src/`); sockets, files and the
database are a program around it (`app/`).

## Layout

- `src/exchange/` one request for a cacheable object: `rules` says what is done next for every phase
  and every result, `run` is the code, `laws` is what holds of every exchange, `reply` the answer.
- `src/router.rs`, `src/server.rs` rules, routes, statuses, and the proxy's state.
- `src/upstream.rs` which objects are being fetched, so that each is fetched once at a time.
- `src/forward.rs` requests to the origin.
- `src/headers.rs` header sets, received, stored and sent.
- `src/range.rs`, `src/cache_control.rs`, `src/time.rs`, `src/duration.rs` what headers and the
  configuration say.
- `src/storage/` cache zones, and garbage collection of the metadata.
- `src/types/` requests, answers, rules, metadata.
- `src/stream.rs`, `src/digest.rs`, `src/paths.rs`, `src/table.rs`, `src/text.rs` what these are
  built from.
- `tests/` examples that run.
- `app/` the program: `cache_me [config.json]`.

## Configuration

```json
{
  "http_bind": "0.0.0.0:11345",
  "http_control_bind": "127.1:11445",
  "temp_dir": "./tmp/",
  "gc_interval": "100m",
  "cache_zone": [{ "generic": "cache_zone0" }],
  "sled": { "path": "./metadata" },
  "acl": [
    {
      "host": "doc.example.com",
      "path_match": "/*",
      "kind": "Cache",
      "allow_method": ["GET", "HEAD"]
    },
    { "host": "api.example.com", "path_match": "/*", "kind": "Proxy" }
  ]
}
```
