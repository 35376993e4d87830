# openrss

Turns web sources (Hacker News, Lobsters) into RSS 2.0, Atom 1.0 and JSON
Feed 1.1 documents, with query parameters that filter, sort, shorten and
limit the items, an entity tag per feed, a response cache key, and optional
access control.

- `src/` is the library, verified with Verus: the feed data model, the three
  output formats, the filters, the middleware decisions (format selection,
  entity tags, cache keys, access control), the retry policy of the HTTP
  client, the configuration, and the mapping of each source's API items to
  feed items. Calls into `quick-xml`, `serde_json`, `regex`, `scraper`,
  `chrono`, `md-5`, `xxhash-rust`, `urlencoding` and `uuid` go through
  small trusted functions whose contracts state what those crates do.
- `app/` is the server around it: configuration from the environment, the
  axum router and middleware, the asynchronous HTTP client and cache, and
  JSON (de)serialisation.
- `tests/` exercises the library on concrete values.
