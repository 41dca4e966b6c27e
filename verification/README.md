# iroh_proxy

The verified core of a scale-to-zero tunnelling proxy built on iroh. A
server, deployed as a function-as-a-service, publishes an iroh ticket over
HTTP and accepts QUIC connections; a client fetches the ticket, keeps a single
uplink to the server and tunnels local TCP connections through it.

Layout:

- `src/support/mod.rs` — reading numeric settings from the text of
  environment variables, as `str::parse` reads unsigned integers.
- `src/support/iroh.rs` — the ALPN, the QUIC transport configuration and the
  comma-separated list of external addresses.
- `src/support/connection_pool.rs` — the uplink, the ticket and keep-alive
  URLs, ticket parsing, and the linger monitor that drops an idle uplink.
- `src/support/static_cert_verifier.rs` — a TLS server verifier that accepts
  exactly one pinned certificate.
- `src/stun/mod.rs` — STUN binding requests and the tracking of the public
  address that STUN responses report.
- `src/web/mod.rs` — the ticket the server publishes and its HTTP routes.
- `app/` — the two programs (`server` and the client) with their network I/O,
  async runtime and trait impls, around the library.
