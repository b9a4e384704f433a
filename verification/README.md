# olivaw-lidar

A driver for SLAMTEC RPLIDAR laser range scanners (primary target: the
RPLIDAR C1), written in Verus: the wire protocol, the byte-stream transports
and the request/response device layer carry contracts that Verus proves.

## Layout

- `src/protocol/`: request framing (`command.rs`), response descriptors
  (`descriptor.rs`), device info and health payloads (`info.rs`) and
  measurement nodes (`scan_node.rs`). Bytes in, typed values out; each
  parser's result is stated exactly over the input bytes.
- `src/transport/`: the `Transport` trait, the scripted `MockTransport`, the
  recorded `ReplayTransport`, serial-port selection (`ports.rs`) and what a
  blocking serial read makes of each answer of the port (`port_reads.rs`).
- `src/device.rs`: the `Lidar` request/response layer. Its contracts relate
  every result to the bytes written and received; byte-level
  resynchronization, the paced operations (`Operation`, driven by
  `Lidar::advance`) and the per-node scan reader (`Lidar::read_scan`) live
  here, with the laws that span several calls.
- `src/assembly.rs`: measurement nodes assembled into 360° rotations, with
  the law that every node from the first start flag on is kept, in order.
- `src/error.rs`, `src/time.rs`: the error type and what the driver relies
  on of `Duration`.
- `app/`: the host side that cannot be verified: the serial-port transport
  and port enumeration, real pauses between operation steps, the rotation
  iterator, floating-point measurement types, and `std::error::Error`
  renderings of the error types.
- `tests/`: the test suite, over replayed and scripted byte streams.
