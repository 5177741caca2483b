//! Packet framing and connection bookkeeping for a game transport that runs
//! over QUIC unidirectional streams.
//!
//! Every chunk written to a stream is a frame: a two-byte header that names
//! the delivery and ordering guarantee of the chunk, followed by its payload.
//! The receiving side routes incoming streams by the header of their first
//! frame and queues the packets it accepts as events.

pub mod delivery_guarantees;
pub mod buffers;
pub mod streams;
pub mod connection;

pub use delivery_guarantees::{DeliveryGuarantee, OrderingGuarantee};
pub use streams::{Header, Packet};
