# tcp_rust

A small user-space TCP stack on a TUN device, verified with Verus.

- `src/seqnum.rs` — sequence-number comparison modulo 2^32 and its laws.
- `src/wire.rs` — reading IPv4/TCP headers out of a frame and writing the
  headers of a reply, through `etherparse`; classification of received frames.
- `src/tcp.rs` — the per-connection state machine: accepting a SYN, the
  handshake, closing.
- `src/manager.rs` — the connection manager behind listeners and streams:
  binding ports, accepting in arrival order, reading, writing, flushing and
  shutting down streams, with the laws that relate these operations.
- `app/` — the program: the TUN device, the packet thread, locking and
  waiting around the library, and `main`.
