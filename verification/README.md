# ipregistry

A client core for the [Ipregistry](https://ipregistry.co) IP geolocation and
threat data API, written in Verus: the logic is executable Rust whose
behaviour is stated in `requires` / `ensures` contracts and proved.

## Layout

- `src/` — the verified library (crate `ipregistry`):
  - `error.rs`: the error type, typed API error codes (`ErrorCode::from_raw`,
    `as_str`), error texts, and the conversion of error payloads;
  - `model/`: the response data types and the `is_bot` heuristic;
  - `cache.rs`: an LRU cache of lookups whose entries expire a fixed time
    after they are written; the caller passes the clock reading;
  - `params.rs`: query parameters kept sorted by name, their
    `application/x-www-form-urlencoded` serialization, and cache keys;
  - `client.rs`: client settings and their validation, request URLs, and the
    retry policy deciding what follows each HTTP exchange;
  - `request.rs`: batch planning (cache misses, chunks, reassembly in input
    order) and JSON request bodies;
  - `keyed.rs`, `text.rs`: sequences of keyed entries and string helpers.
- `tests/` — tests of the library on concrete values.
- `app/` — the asynchronous client around the library: HTTP with `reqwest`,
  timers with `tokio`, JSON decoding with `serde`, and the `Cache` trait.

Calls into the `lru`, `url` and `serde_json` crates are made through small
trusted wrappers whose contracts state what those crates do; everything else
in `src/` is proved.
