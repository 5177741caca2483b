# qpnet

Packet framing and connection bookkeeping for a game transport over QUIC
unidirectional streams, verified with Verus.

- `src/delivery_guarantees.rs`: the delivery and ordering guarantees.
- `src/buffers.rs`: the `bytes` crate's buffers, declared to Verus, with the
  contracts of the calls the library makes on them.
- `src/streams.rs`: the two-byte frame header and the packet format, the
  header each kind of sender writes under, and the laws of the format.
- `src/connection.rs`: how the receiving side routes a new stream by its first
  packet, the queue of events, and the streams it keeps open.
- `app/`: the QUIC endpoint, connection and stream wrappers (quinn, tokio) and
  the demo program, which call into the library.

A packet is read back with its payload taken from offset 2 after the
two-byte header, so the first two payload bytes written are not returned
(`lemma_packet_read_of_write` states this).
