# zzdns

A caching DNS forwarder. The library (`src/`) holds what the server decides
and computes, each function with a contract proved by Verus; `app/` is the
program around it: UDP sockets, channels, the `stretto` cache and the tasks.

- `dns`: the 12-byte header and a question laid out from the first byte.
- `message`: what the `domain` crate reads from messages, as plain values.
- `wire`: ID, RA bit, appending answer records, laying out a query.
- `answers`: the answer records of a message and which of them an answer keeps.
- `cacher`, `resolver`, `upstream`, `dns_server`, `prefetcher`: the decisions
  of the cache, the resolution of A queries, the upstream outcome, request
  routing and the preload list.
- `config`: the configuration values and the addresses made from them.
