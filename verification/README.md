# aether

The core of a userspace WireGuard tunnel, written in Verus: what the functions
under `src/` promise is proved, but for those that do no more than call an
outside crate.

- `src/netstack` terminates TCP and UDP flows on top of `smoltcp`: flows and
  their credit, the backlog, the queues, the device and the order of work.
- `src/wireguard` keeps the session with the peer on top of `boringtun`: marked
  messages, the reader, the writer, the timer, the health check, and the trial of
  an endpoint.
- `src/wg_prober` picks the endpoint: which addresses and ports are tried in what
  order, and which answers are kept.
- `src/sysprofile.rs` sizes buffers for the host it runs on.
- `src/addr.rs`, `src/cidr.rs`, `src/text.rs`, `src/random.rs` and
  `src/channel.rs` are what these share.

What the proofs rest on is marked `external_body`: each such function calls an
outside crate, and its comment says what is taken for granted of it. Of a drawn
number that is its range at most.

`app/` holds the sockets, the tasks and the clock around the library. `tests/`
runs the library with the outside crates linked in.
