# crazyradio_server

A JSON-RPC server, reached over a ZMQ REP socket, that exposes Crazyflie
radio links: scanning, connecting, status queries and disconnecting, with
each connection's CRTP packets relayed over a pair of ZMQ PUSH/PULL sockets.

Layout:

- `src/` is the verified library (Verus). `server.rs` holds the request
  handling as a state machine over the connection table; `jsonrpc.rs` the
  request and response types and how responses are built; `connection.rs`
  connection status and its report; `relay.rs` what the packet relay loops
  do after each socket operation; `ports.rs` binding relay sockets to random
  ports; `radio.rs` acknowledgement payloads; `text.rs` decimal text and
  listening addresses; `error.rs` the error type and its rendering.
- `app/` is the program around it: command line, sockets, the USB radio,
  threads, and the serde forms of the JSON-RPC types. It performs the steps
  the library asks for and reports their results back.
- `tests/` runs the library on concrete values.
