# h3_driver

The state machine of an HTTP/3 driver with WebTransport sessions, written in Verus:
what the driver does in each turn is stated as functions on plain values and proved
of the code.

## Layout

- `wire`: variable-length integers, error codes, stream prefixes, capsules and
  datagrams as they are on the wire. Reading gives back what was written.
- `headers`, `body_buf`, `settings`, `pipe_config`, `conn_close`, `multicast`: the
  small parts.
- `table`, `lane`: tables keyed by stream, and bounded lanes over the channels of
  `tokio`.
- `transport`, `peer_log`, `peer_side`: what the driver needs of a connection, in
  memory: credit, stream limits, refusals and resets, datagrams, what the peer can
  read, and what it does.
- `request_stream`: one request and its response.
- `wt`: sessions (`runtime`, with their laws in `session_laws`), the ends of their
  streams, who waits for what, datagrams, lent payloads, samples and statistics.
- `driver`: the driver itself. `state`, `reads`, `writes`, `flows`, `commands` and
  `lifecycle` are the turns; `desk` and the modules around it carry out what the
  application asks about sessions. `helper` couples a driver with a peer.
- The laws of the driver as a whole, over any number of turns: `request_laws`,
  `closing_laws`, `order_laws` (the numbers of opened streams grow, credit counts in
  its own direction), `fairness` (nobody overtakes), `table_laws` (no stream has two
  rows) and `retirement_laws` (what was retired stays retired). They rest on `counts`,
  `calm`, `steady`, `tables` and `order`, which follow one property each through all
  the steps of a turn.
- `client_side_driver`, `server_side_driver`, `server_requests`: scenarios of both
  ends, as functions that report what happened.

## How contracts are written

Every type with state has a view, a ghost value of plain sequences and numbers. An
operation on the type is a function on that value, and the contract of the code is
that it computes the function: `final(self)@ == old(self)@.operation(..)`. What holds
of several operations together stands as a public proof function next to them.

## What is trusted

The calls into `octets` (variable-length integers), `tokio` (a bounded channel of
numbers), `datagram-socket` (a datagram buffer) and `String::from_utf8` are wrapped
one by one; each wrapper says in its comment what it claims of the call.
