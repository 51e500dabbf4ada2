# wasmbridge-server-proto

The control plane of a cloud bridge. Clients open a stream with a bearer token,
register under the id that the token names, and get commands over the stream;
commands for a client that is away wait until it comes. Whoever runs the server
can send commands, wait for a response, list the clients and watch them come and
go. Clients that give no sign of life are dropped.

- `src/` is the library, verified with Verus: `registry` (clients, waiting
  commands, waiting callers), `session` (one client's stream as a state machine),
  `auth` and `validator` (tokens), `builder`, `cert`, `handle`, and `laws`, which
  holds what is proved of them together. `channels`, `table` and `clock` name
  what is believed of tokio, dashmap, chrono and std.
- `app/` is the server around it: gRPC, TLS, files, tasks and timers. The
  registry is shared behind a mutex, which is never held across an await.
- `tests/` runs the library with the real channels and maps.
