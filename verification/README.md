# zenoh_wasm

The browser (`wasm32-unknown-unknown`) platform layer of Zenoh, as a verified
library with the browser plumbing around it.

- `src/` is verified with Verus: the WebSocket link's read buffering, socket
  states, events and error texts (`ws_read`, `ws_link`); timer delays and
  timeouts (`time`); the library loader and dynamic plugins, which a browser
  cannot load (`lib_loader`, `plugin`); the runtime's start conditions and its
  connection decisions: start plans, the runs of a client through its
  groups and of a router or peer through its endpoints,
  retries, peer dialing, reconnection after a closed session or link
  (`start_conditions`, `endpoints`, `orchestrator`); and the configuration of
  a client session (`bindings`).
- `app/` drives those decisions in a browser: `setTimeout` timers, the
  `web_sys` WebSocket and its callbacks, `flume` channels, `tokio` locks and
  the asynchronous connection loops.
- `tests/` exercises the library on concrete values.

Not here: the JavaScript session API of the browser bindings (`open`,
`openWithConfig`, `putBytes`, `putString`, `isClosed`, `close`,
`declareSubscriber`). It is a thin layer over a Zenoh session, and the Zenoh
crates are the project's own, not dependencies of this one. What those entry
points decide themselves stands in `bindings`: the client configuration that
`open` builds, and the life of a subscription handle.
