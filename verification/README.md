# wmjtyd_signer

Signal calculation for market data, and a websocket relay that serves the
signals to clients, written as a Verus library (`src/`) with the program
around it (`app/`).

`src/` holds the decisions, each with its contract:

- `util::string_tool`: a publisher's identifier from its socket path
  (`ipc:///tmp/<ident>.ipc`), with the laws that it is idempotent and gives a
  name back from its socket path.
- `util::dynamic_config`: reading the signal configuration (JSON, through
  `serde_json`) and the plan that brings the running signals to it, with the
  law that a carried-out plan runs exactly the configured signals.
- `indicator`: line-protocol records of indicators, the Ichimoku cloud's
  per-product state table and the checks on each cloud result.
- `websocket`: the relay's client table, what it does with each feed message,
  each client request and each websocket event.

`app/` reads files and sockets, runs the async tasks, computes the cloud over
floating-point candles with `yata`, and writes JSON with `serde`.
`app/main.rs` runs the signals; with the argument `websocket` it runs the relay.
