# deno_host

The core of a host that embeds Deno in a desktop application, verified with
Verus. Scripts serve HTTP requests that reach them over a channel, exchange
messages with windows and other scripts, and are started from a command line.

- `src/fake_http/`: requests and responses. `header_map` states what hyper's
  header map holds; `headers`, `cache_control` and `response` hold the rules on
  headers and compression; `encoding` the codings; `body` and `request` the read
  half of a stream, `writer` its write half.
- `src/ipc.rs`: messages, and waiting for an event.
- `src/cli.rs`: start-up, last words and exit codes.
- `app/`: channels, streams, processes and the operations that scripts call.
- `tests/`: the library on concrete values.
