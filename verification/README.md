# obscura_net

The decisions of a headless browser's HTTP client, verified with Verus: which
URLs and addresses a request may reach, what a request looks like, and how a
fetch goes on from one answer to the next.

- `src/ip.rs` - IP addresses, the ones that are never reached, and their text.
- `src/guard.rs` - the checks of URLs and of resolved addresses.
- `src/urls.rs` - URLs, by what is read of them.
- `src/headers.rs`, `src/header_map.rs` - tables of headers, and the header map
  of the HTTP library.
- `src/outgoing.rs` - the headers of an outgoing request.
- `src/response.rs` - requests and responses as users see them.
- `src/ca.rs`, `src/client.rs`, `src/connection.rs` - trusted certificates,
  settings, connections.
- `src/fetch.rs`, `src/callbacks.rs` - one fetch, step by step, and what
  callbacks are told of it.
- `src/run.rs` - a whole fetch as a run through states.
- `src/laws.rs` - what holds of the library as a whole.
- `src/text.rs`, `src/error.rs` - text operations, errors.

`app/` puts the client on the network. The cookie jar, the interceptor, the
list of trackers and the decoding of bodies are given by its users.
