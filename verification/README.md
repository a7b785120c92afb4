# amica

A small HTTP proxy whose requests and responses can be inspected and
rewritten by a Lua filter script (`on_http_request(req)` and
`on_http_response(res)`).

Layout:

- `src/` — the verified library (Verus):
  - `headers.rs` — the header table: insertion-ordered lines read as a map
    in which the last line of a name wins; laws on setting and reading back.
  - `proxy_data.rs` — `ProxyRequest` / `ProxyResponse`, the operations the
    script calls (`set_body` keeps `content-length` in step with the body),
    their construction from received parts and their conversion into
    `hyper` messages.
  - `client.rs` — the routing of a new connection (`CONNECT` tunnel or
    HTTP) from the bytes the client sent, read with `httparse`.
  - `config.rs` — command-line arguments and the start-up plan.
  - `script.rs` — when a worker reloads the script, and what moves on when
    the script has no hook.
  - `text.rs` — decimal rendering and lossy UTF-8 decoding.
  - `wire.rs` — the `hyper` types and builder calls used for outgoing
    messages.
- `app/` — the program: command line, sockets, HTTP serving, and the Lua
  engine and worker pool.
- `tests/` — tests of the library.
