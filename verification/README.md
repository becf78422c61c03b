# dazzle

Market-data aggregator for Deribit: a persistent WebSocket connection, an L2
order book per instrument, and a REST and SSE HTTP API.

- `src/` is the verified library (Verus): fixed-point prices and quantities
  ordered by their integer values (`fixed_point`), books and market-order
  sweeps (`book`), book maintenance decisions with change-id gap detection
  (`book_manager`), channel names (`channel`, `channel_name`), subscription
  reference counts (`subscriptions`), JSON-RPC request framing (`rpc`),
  routing of inbound messages (`dispatch`), connection decisions
  (`connection`), stream delivery (`stream`) and configuration (`config`).
- `app/` is the service around it: tokio tasks, the WebSocket, axum routes,
  serde models with floating-point prices, and the conversions to the
  library's fixed-point values.
- `tests/` exercise the library.
