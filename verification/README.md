# openlifter_backend

The server side of OpenLifter's live meets: several browsers run one meet,
push their updates to the server, pull what others pushed, and can rebuild the
server's state after a loss. This crate holds the server's logic as a library
verified with Verus; `app/` is the WebSocket server around it.

## Layout

- `src/` — the verified library.
  - `live.rs`: the decision taken on each message of the live protocol, over
    the server's sessions and meets, returned as an action for the caller.
  - `meet_actor.rs`: one meet's numbered update log, its state (the last
    value of each key), sequence-gap detection and state recovery.
  - `conflict.rs`, `websocket.rs`, `ws_router.rs`: conflict resolution by
    priority, the per-connection handler and the router's decisions.
  - `auth/`: password rules and hashing, tokens, sessions with idle and
    absolute timeouts, CSRF tokens, rotation, sealed session storage and a
    lockout after repeated failures.
  - `validation/`: the field rules of the protocol's messages.
  - `rate_limit.rs`, `meet.rs`, `config.rs`, `error.rs`, `protocol.rs`,
    `messages.rs`: the request limiter, the meet directory, settings, errors
    and the message types.
- `tests/` — tests of the library on concrete values.
- `app/` — the server: configuration loading, the flat-file store, the axum
  routes and socket loop, and the carrying out of the library's actions.

Contracts are stated over views (`Seq`, `Map`, integers); the laws that span
several calls are public proof functions beside the code they speak of.
Calls into outside crates (hashing, AEAD, random numbers, the clock, the
concurrent maps) go through small trusted wrappers whose contracts say what
the crates' sources show.
