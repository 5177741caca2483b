//! The frame format: a two-byte header followed by the payload.
//!
//! Byte 0 names the delivery guarantee (0 unreliable, 1 reliable); byte 1
//! names the ordering guarantee (0 unordered, 1 sequenced, 2 ordered). The
//! channel number that `Sequenced` and `Ordered` may carry is not written.
use crate::buffers::{
    bytes_as_slice, bytes_contents, bytes_copy_from_slice, bytes_get_u8, bytes_mut_contents,
    bytes_mut_freeze, bytes_mut_len, bytes_mut_new, bytes_mut_put_slice, bytes_mut_put_u8,
    can_append,
};
use crate::delivery_guarantees::{DeliveryGuarantee, OrderingGuarantee};
use bytes::{Bytes, BytesMut};
use vstd::prelude::*;
use vstd::slice::slice_subrange;

verus! {

/// The wire code of a delivery guarantee.
pub open spec fn delivery_code(d: DeliveryGuarantee) -> u8 {
    match d {
        DeliveryGuarantee::Unreliable => 0,
        DeliveryGuarantee::Reliable => 1,
    }
}

/// The wire code of an ordering guarantee; the channel number is not part of it.
pub open spec fn ordering_code(o: OrderingGuarantee) -> u8 {
    match o {
        OrderingGuarantee::Unordered => 0,
        OrderingGuarantee::Sequenced(_) => 1,
        OrderingGuarantee::Ordered(_) => 2,
    }
}

/// The delivery guarantee that a wire code names, if any.
pub open spec fn delivery_of_code(b: u8) -> Option<DeliveryGuarantee> {
    if b == 0 {
        Some(DeliveryGuarantee::Unreliable)
    } else if b == 1 {
        Some(DeliveryGuarantee::Reliable)
    } else {
        None
    }
}

/// The ordering guarantee that a wire code names, if any; it carries no channel.
pub open spec fn ordering_of_code(b: u8) -> Option<OrderingGuarantee> {
    if b == 0 {
        Some(OrderingGuarantee::Unordered)
    } else if b == 1 {
        Some(OrderingGuarantee::Sequenced(None))
    } else if b == 2 {
        Some(OrderingGuarantee::Ordered(None))
    } else {
        None
    }
}

/// The two bytes that encode a header.
pub open spec fn header_bytes(h: Header) -> Seq<u8> {
    seq![delivery_code(h.delivery_guarantee), ordering_code(h.ordering_guarantee)]
}

/// Whether `s` starts with a header: two bytes, each a known code.
pub open spec fn header_decodable(s: Seq<u8>) -> bool {
    &&& s.len() >= 2
    &&& delivery_of_code(s[0]) is Some
    &&& ordering_of_code(s[1]) is Some
}

/// The header that the first two bytes of `s` encode.
pub open spec fn decode_header(s: Seq<u8>) -> Header
    recommends
        header_decodable(s),
{
    Header {
        delivery_guarantee: delivery_of_code(s[0])->Some_0,
        ordering_guarantee: ordering_of_code(s[1])->Some_0,
    }
}

/// A header as it reads back from the wire: the ordering keeps its kind and
/// loses its channel number.
pub open spec fn on_the_wire(h: Header) -> Header {
    Header {
        delivery_guarantee: h.delivery_guarantee,
        ordering_guarantee: match h.ordering_guarantee {
            OrderingGuarantee::Unordered => OrderingGuarantee::Unordered,
            OrderingGuarantee::Sequenced(_) => OrderingGuarantee::Sequenced(None),
            OrderingGuarantee::Ordered(_) => OrderingGuarantee::Ordered(None),
        },
    }
}

/// The frame that carries `payload` under header `h`.
pub open spec fn packet_bytes(h: Header, payload: Seq<u8>) -> Seq<u8> {
    header_bytes(h) + payload
}

/// Whether `s` can be read as a packet: a known header, and at least two
/// more bytes, since the payload is taken from offset 2 of what follows
/// the header.
pub open spec fn packet_decodable(s: Seq<u8>) -> bool {
    header_decodable(s) && s.len() >= 4
}

/// The payload that reading `s` as a packet yields: everything after the
/// first four bytes.
pub open spec fn packet_payload(s: Seq<u8>) -> Seq<u8> {
    s.skip(4)
}

/// A header reads back from its two bytes as it is, but for the channel
/// number of its ordering guarantee, which the wire does not carry.
pub proof fn lemma_header_round_trip(h: Header)
    ensures
        header_decodable(header_bytes(h)),
        decode_header(header_bytes(h)) == on_the_wire(h),
{
}

/// Two bytes that read as a header are exactly the bytes of the header they
/// read as.
pub proof fn lemma_header_bytes_round_trip(s: Seq<u8>)
    requires
        header_decodable(s),
    ensures
        header_bytes(decode_header(s)) == s.take(2),
{
    assert(header_bytes(decode_header(s)) =~= s.take(2));
}

/// Two headers have the same bytes exactly when they agree but for channel
/// numbers; a header read from the wire never carries a channel number.
pub proof fn lemma_header_bytes_identify(h1: Header, h2: Header, s: Seq<u8>)
    ensures
        (header_bytes(h1) == header_bytes(h2)) == (on_the_wire(h1) == on_the_wire(h2)),
        header_decodable(s) ==> on_the_wire(decode_header(s)) == decode_header(s),
{
    lemma_header_round_trip(h1);
    lemma_header_round_trip(h2);
}

/// Serializing two headers onto buffers that hold the same bytes leaves
/// buffers that hold the same bytes exactly when the headers agree but for
/// channel numbers (so `Sequenced(Some(5))` and `Sequenced(None)` write alike).
pub proof fn lemma_serialize_same_bytes(prefix: Seq<u8>, h1: Header, h2: Header)
    ensures
        (prefix + header_bytes(h1) == prefix + header_bytes(h2)) == (on_the_wire(h1)
            == on_the_wire(h2)),
{
    lemma_header_round_trip(h1);
    lemma_header_round_trip(h2);
    if prefix + header_bytes(h1) == prefix + header_bytes(h2) {
        assert(header_bytes(h1) =~= (prefix + header_bytes(h1)).skip(prefix.len() as int));
        assert(header_bytes(h2) =~= (prefix + header_bytes(h2)).skip(prefix.len() as int));
    }
}

/// A frame is its header's two bytes and then its payload.
pub proof fn lemma_packet_length(h: Header, payload: Seq<u8>)
    ensures
        packet_bytes(h, payload).len() == payload.len() + 2,
        packet_bytes(h, payload).take(2) == header_bytes(h),
        packet_bytes(h, payload).skip(2) == payload,
{
    assert(packet_bytes(h, payload).take(2) =~= header_bytes(h));
    assert(packet_bytes(h, payload).skip(2) =~= payload);
}

/// What reading gives back of a written frame: the header as it travels on
/// the wire, and the payload without its first two bytes (the payload is
/// taken from offset 2 after the header). A frame whose payload is shorter
/// than two bytes cannot be read.
pub proof fn lemma_packet_read_of_write(h: Header, payload: Seq<u8>)
    ensures
        packet_decodable(packet_bytes(h, payload)) == (payload.len() >= 2),
        payload.len() >= 2 ==> decode_header(packet_bytes(h, payload)) == on_the_wire(h),
        payload.len() >= 2 ==> packet_payload(packet_bytes(h, payload)) == payload.skip(2),
{
    lemma_header_round_trip(h);
    let s = packet_bytes(h, payload);
    assert(s[0] == header_bytes(h)[0]);
    assert(s[1] == header_bytes(h)[1]);
    if payload.len() >= 2 {
        assert(s.skip(4) =~= payload.skip(2));
    }
}

/// The header of a frame: how its payload is to be delivered and arranged.
#[derive(Copy, Clone, Debug, PartialOrd, PartialEq, Eq, Structural)]
pub struct Header {
    pub delivery_guarantee: DeliveryGuarantee,
    pub ordering_guarantee: OrderingGuarantee,
}

impl Header {
    pub fn new(
        delivery_guarantee: DeliveryGuarantee,
        ordering_guarantee: OrderingGuarantee,
    ) -> (h: Header)
        ensures
            h.delivery_guarantee == delivery_guarantee,
            h.ordering_guarantee == ordering_guarantee,
    {
        Header { delivery_guarantee, ordering_guarantee }
    }

    /// Reads a header from the front of `buffer` and advances past it.
    /// A buffer shorter than two bytes, or an unknown code, is refused by
    /// `requires`; `Header::can_deserialize` tests for both.
    pub fn deserialize(buffer: &mut Bytes) -> (h: Header)
        requires
            header_decodable(bytes_contents(*old(buffer))),
        ensures
            h == decode_header(bytes_contents(*old(buffer))),
            bytes_contents(*final(buffer)) == bytes_contents(*old(buffer)).skip(2),
    {
        let ghost start = bytes_contents(*buffer);
        let delivery_guarantee = bytes_get_u8(buffer);
        let ordering_guarantee = bytes_get_u8(buffer);
        assert(bytes_contents(*buffer) =~= start.skip(2));

        let delivery_guarantee = match delivery_guarantee {
            0 => DeliveryGuarantee::Unreliable,
            _ => DeliveryGuarantee::Reliable,
        };

        let ordering_guarantee = match ordering_guarantee {
            0 => OrderingGuarantee::Unordered,
            1 => OrderingGuarantee::Sequenced(None),
            _ => OrderingGuarantee::Ordered(None),
        };

        Header { delivery_guarantee, ordering_guarantee }
    }

    /// Whether `buffer` can be read by `Header::deserialize`: two bytes at
    /// least, each a known code.
    pub fn can_deserialize(buffer: &Bytes) -> (ok: bool)
        ensures
            ok == header_decodable(bytes_contents(*buffer)),
    {
        let s = bytes_as_slice(buffer);
        s.len() >= 2 && s[0] <= 1 && s[1] <= 2
    }

    /// Whether the two bytes of a header can be appended to `bytes`, as
    /// `Header::serialize` requires: the buffer's growth stays within the
    /// machine's bound.
    pub fn can_serialize_into(bytes: &BytesMut) -> (ok: bool)
        ensures
            ok == can_append(bytes_mut_contents(*bytes).len() as int, 3),
    {
        let len = bytes_mut_len(bytes);
        len <= (isize::MAX as usize - 6) / 4
    }

    /// Appends the two bytes of this header to `bytes`, growing it as needed.
    /// The bound in `requires` is a machine limit: past it, the growth of the
    /// buffer could overflow.
    pub fn serialize(&self, bytes: &mut BytesMut)
        requires
            can_append(bytes_mut_contents(*old(bytes)).len() as int, 3),
        ensures
            bytes_mut_contents(*final(bytes)) == bytes_mut_contents(*old(bytes)) + header_bytes(
                *self,
            ),
    {
        let ghost start = bytes_mut_contents(*bytes);
        match &self.delivery_guarantee {
            DeliveryGuarantee::Unreliable => {
                bytes_mut_put_u8(bytes, 0);
            },
            DeliveryGuarantee::Reliable => {
                bytes_mut_put_u8(bytes, 1);
            },
        }

        match &self.ordering_guarantee {
            OrderingGuarantee::Unordered => {
                bytes_mut_put_u8(bytes, 0);
            },
            OrderingGuarantee::Sequenced(_) => {
                bytes_mut_put_u8(bytes, 1);
            },
            OrderingGuarantee::Ordered(_) => {
                bytes_mut_put_u8(bytes, 2);
            },
        }
        assert(bytes_mut_contents(*bytes) =~= start + header_bytes(*self));
    }
}

/// A frame read from a stream: its header and its payload.
pub struct Packet {
    pub header: Header,
    pub payload: Bytes,
}

impl View for Packet {
    type V = (Header, Seq<u8>);

    open spec fn view(&self) -> (Header, Seq<u8>) {
        (self.header, bytes_contents(self.payload))
    }
}

impl Packet {
    /// The frame of `buf` under `header`: the header's two bytes, then `buf`.
    pub fn serialize(buf: &[u8], header: Header) -> (bytes: Bytes)
        requires
            can_append(2, buf@.len() as int),
        ensures
            bytes_contents(bytes) == packet_bytes(header, buf@),
    {
        let mut bytes = bytes_mut_new();
        header.serialize(&mut bytes);
        bytes_mut_put_slice(&mut bytes, buf);

        bytes_mut_freeze(bytes)
    }

    /// Reads a packet from `buffer`. The header is taken from the front of
    /// `buffer`, which is advanced past it; the payload is a copy of what
    /// then follows from offset 2 on, that is, of everything after the
    /// first four bytes.
    pub fn deserialize(buffer: &mut Bytes) -> (packet: Packet)
        requires
            packet_decodable(bytes_contents(*old(buffer))),
        ensures
            packet.header == decode_header(bytes_contents(*old(buffer))),
            bytes_contents(packet.payload) == packet_payload(bytes_contents(*old(buffer))),
            bytes_contents(*final(buffer)) == bytes_contents(*old(buffer)).skip(2),
    {
        let ghost start = bytes_contents(*buffer);
        let header = Header::deserialize(buffer);
        let rest = bytes_as_slice(buffer);
        let tail = slice_subrange(rest, 2, rest.len());
        assert(tail@ =~= start.skip(4));
        let payload = bytes_copy_from_slice(tail);

        Packet { header, payload }
    }

    /// Whether `buffer` can be read by `Packet::deserialize`: a known
    /// header, and at least four bytes in all.
    pub fn can_deserialize(buffer: &Bytes) -> (ok: bool)
        ensures
            ok == packet_decodable(bytes_contents(*buffer)),
    {
        let s = bytes_as_slice(buffer);
        s.len() >= 4 && s[0] <= 1 && s[1] <= 2
    }
}

/// The three kinds of sender: each writes its chunks under a header of its own.
#[derive(Copy, Clone, Debug, PartialEq, Eq, Structural)]
pub enum SendChannel {
    /// Reliable and ordered, on one stream that stays open.
    Reliable,
    /// Reliable and unordered, on a new stream for each chunk.
    ReliableUnordered,
    /// Reliable and sequenced, on a new stream for each chunk.
    ReliableSequenced,
}

/// The header under which a sender of kind `c` writes.
pub open spec fn channel_header(c: SendChannel) -> Header {
    match c {
        SendChannel::Reliable => Header {
            delivery_guarantee: DeliveryGuarantee::Reliable,
            ordering_guarantee: OrderingGuarantee::Ordered(None),
        },
        SendChannel::ReliableUnordered => Header {
            delivery_guarantee: DeliveryGuarantee::Reliable,
            ordering_guarantee: OrderingGuarantee::Unordered,
        },
        SendChannel::ReliableSequenced => Header {
            delivery_guarantee: DeliveryGuarantee::Reliable,
            ordering_guarantee: OrderingGuarantee::Sequenced(None),
        },
    }
}

impl SendChannel {
    /// The header under which this kind of sender writes.
    pub fn header(self) -> (h: Header)
        ensures
            h == channel_header(self),
    {
        match self {
            SendChannel::Reliable => Header::new(
                DeliveryGuarantee::Reliable,
                OrderingGuarantee::Ordered(None),
            ),
            SendChannel::ReliableUnordered => Header::new(
                DeliveryGuarantee::Reliable,
                OrderingGuarantee::Unordered,
            ),
            SendChannel::ReliableSequenced => Header::new(
                DeliveryGuarantee::Reliable,
                OrderingGuarantee::Sequenced(None),
            ),
        }
    }

    /// The frame in which this kind of sender writes `buf`.
    pub fn frame(self, buf: &[u8]) -> (bytes: Bytes)
        requires
            can_append(2, buf@.len() as int),
        ensures
            bytes_contents(bytes) == packet_bytes(channel_header(self), buf@),
    {
        Packet::serialize(buf, self.header())
    }
}

} // verus!
