use bytes::{Bytes, BytesMut};
use qpnet::delivery_guarantees::{DeliveryGuarantee, OrderingGuarantee};
use qpnet::streams::{Header, Packet, SendChannel};

fn header(d: DeliveryGuarantee, o: OrderingGuarantee) -> Header {
    Header::new(d, o)
}

#[test]
fn default_ordering_is_unordered() {
    assert_eq!(OrderingGuarantee::default(), OrderingGuarantee::Unordered);
}

#[test]
fn header_new_keeps_fields() {
    let h = Header::new(DeliveryGuarantee::Unreliable, OrderingGuarantee::Sequenced(Some(7)));
    assert_eq!(h.delivery_guarantee, DeliveryGuarantee::Unreliable);
    assert_eq!(h.ordering_guarantee, OrderingGuarantee::Sequenced(Some(7)));
}

#[test]
fn header_serialize_writes_codes() {
    let cases = [
        (DeliveryGuarantee::Unreliable, OrderingGuarantee::Unordered, [0u8, 0u8]),
        (DeliveryGuarantee::Reliable, OrderingGuarantee::Unordered, [1, 0]),
        (DeliveryGuarantee::Unreliable, OrderingGuarantee::Sequenced(None), [0, 1]),
        (DeliveryGuarantee::Reliable, OrderingGuarantee::Sequenced(Some(4)), [1, 1]),
        (DeliveryGuarantee::Reliable, OrderingGuarantee::Ordered(None), [1, 2]),
        (DeliveryGuarantee::Unreliable, OrderingGuarantee::Ordered(Some(9)), [0, 2]),
    ];
    for (d, o, expected) in cases {
        let mut out = BytesMut::new();
        assert!(Header::can_serialize_into(&out));
        header(d, o).serialize(&mut out);
        assert_eq!(&out[..], &expected[..]);
    }
}

#[test]
fn header_serialize_appends() {
    let mut out = BytesMut::new();
    out.extend_from_slice(&[9, 9, 9]);
    assert!(Header::can_serialize_into(&out));
    header(DeliveryGuarantee::Reliable, OrderingGuarantee::Ordered(None)).serialize(&mut out);
    assert_eq!(&out[..], &[9, 9, 9, 1, 2]);
}

#[test]
fn header_deserialize_reads_and_advances() {
    let mut buf = Bytes::from_static(&[1, 1, 42, 43]);
    let h = Header::deserialize(&mut buf);
    assert_eq!(h.delivery_guarantee, DeliveryGuarantee::Reliable);
    assert_eq!(h.ordering_guarantee, OrderingGuarantee::Sequenced(None));
    assert_eq!(&buf[..], &[42, 43]);

    let mut buf = Bytes::from_static(&[0, 0]);
    let h = Header::deserialize(&mut buf);
    assert_eq!(h, header(DeliveryGuarantee::Unreliable, OrderingGuarantee::Unordered));
    assert!(buf.is_empty());
}

#[test]
fn header_round_trip_drops_channel_number() {
    let h = header(DeliveryGuarantee::Reliable, OrderingGuarantee::Ordered(Some(3)));
    let mut out = BytesMut::new();
    h.serialize(&mut out);
    let mut frozen = out.freeze();
    let back = Header::deserialize(&mut frozen);
    assert_eq!(back, header(DeliveryGuarantee::Reliable, OrderingGuarantee::Ordered(None)));
}

#[test]
fn packet_serialize_prefixes_header() {
    let h = header(DeliveryGuarantee::Reliable, OrderingGuarantee::Unordered);
    let bytes = Packet::serialize(b"Test 1", h);
    assert_eq!(&bytes[..], b"\x01\x00Test 1");
    let empty = Packet::serialize(&[], header(DeliveryGuarantee::Unreliable, OrderingGuarantee::Ordered(None)));
    assert_eq!(&empty[..], &[0, 2]);
}

#[test]
fn packet_deserialize_skips_two_bytes_after_header() {
    let mut buf = Bytes::from_static(&[1, 2, 10, 11, 12, 13]);
    let p = Packet::deserialize(&mut buf);
    assert_eq!(p.header, header(DeliveryGuarantee::Reliable, OrderingGuarantee::Ordered(None)));
    assert_eq!(&p.payload[..], &[12, 13]);
    assert_eq!(&buf[..], &[10, 11, 12, 13]);
}

#[test]
fn packet_read_of_write() {
    let h = header(DeliveryGuarantee::Reliable, OrderingGuarantee::Sequenced(Some(1)));
    let mut bytes = Packet::serialize(b"abcdef", h);
    let p = Packet::deserialize(&mut bytes);
    assert_eq!(p.header, header(DeliveryGuarantee::Reliable, OrderingGuarantee::Sequenced(None)));
    assert_eq!(&p.payload[..], b"cdef");
}

#[test]
fn can_deserialize_checks_length_and_codes() {
    assert!(Packet::can_deserialize(&Bytes::from_static(&[1, 2, 0, 0])));
    assert!(Packet::can_deserialize(&Bytes::from_static(&[0, 0, 5, 5, 5])));
    assert!(!Packet::can_deserialize(&Bytes::from_static(&[1, 2, 0])));
    assert!(!Packet::can_deserialize(&Bytes::from_static(&[])));
    assert!(!Packet::can_deserialize(&Bytes::from_static(&[2, 0, 0, 0])));
    assert!(!Packet::can_deserialize(&Bytes::from_static(&[1, 3, 0, 0])));
}

#[test]
fn channel_headers() {
    assert_eq!(
        SendChannel::Reliable.header(),
        header(DeliveryGuarantee::Reliable, OrderingGuarantee::Ordered(None))
    );
    assert_eq!(
        SendChannel::ReliableUnordered.header(),
        header(DeliveryGuarantee::Reliable, OrderingGuarantee::Unordered)
    );
    assert_eq!(
        SendChannel::ReliableSequenced.header(),
        header(DeliveryGuarantee::Reliable, OrderingGuarantee::Sequenced(None))
    );
}

#[test]
fn channel_frames() {
    assert_eq!(&SendChannel::Reliable.frame(b"xy")[..], b"\x01\x02xy");
    assert_eq!(&SendChannel::ReliableUnordered.frame(b"xy")[..], b"\x01\x00xy");
    assert_eq!(&SendChannel::ReliableSequenced.frame(b"xy")[..], b"\x01\x01xy");
}

#[test]
fn header_bytes_read_then_written_back() {
    for bytes in [[0u8, 0u8], [0, 1], [0, 2], [1, 0], [1, 1], [1, 2]] {
        let mut buf = Bytes::copy_from_slice(&bytes);
        assert!(Header::can_deserialize(&buf));
        let h = Header::deserialize(&mut buf);
        let mut out = BytesMut::new();
        h.serialize(&mut out);
        assert_eq!(&out[..], &bytes[..]);
    }
}

#[test]
fn headers_differing_in_channel_share_bytes() {
    let a = header(DeliveryGuarantee::Reliable, OrderingGuarantee::Sequenced(Some(1)));
    let b = header(DeliveryGuarantee::Reliable, OrderingGuarantee::Sequenced(Some(2)));
    let c = header(DeliveryGuarantee::Reliable, OrderingGuarantee::Ordered(Some(1)));
    let (mut x, mut y, mut z) =
        (BytesMut::new(), BytesMut::new(), BytesMut::new());
    a.serialize(&mut x);
    b.serialize(&mut y);
    c.serialize(&mut z);
    assert_eq!(x, y);
    assert_ne!(x, z);
}

#[test]
fn short_frame_cannot_be_read() {
    let h = header(DeliveryGuarantee::Reliable, OrderingGuarantee::Unordered);
    assert!(!Packet::can_deserialize(&Packet::serialize(b"a", h)));
    assert!(Packet::can_deserialize(&Packet::serialize(b"ab", h)));
}

#[test]
fn header_can_deserialize_checks_two_bytes_and_codes() {
    assert!(Header::can_deserialize(&Bytes::from_static(&[1, 2])));
    assert!(Header::can_deserialize(&Bytes::from_static(&[0, 1, 7])));
    assert!(!Header::can_deserialize(&Bytes::from_static(&[1])));
    assert!(!Header::can_deserialize(&Bytes::from_static(&[2, 0])));
    assert!(!Header::can_deserialize(&Bytes::from_static(&[0, 3])));
    let mut buf = Bytes::from_static(&[1, 0, 5]);
    assert!(Header::can_deserialize(&buf) && !Packet::can_deserialize(&buf));
    let h = Header::deserialize(&mut buf);
    assert_eq!(h, header(DeliveryGuarantee::Reliable, OrderingGuarantee::Unordered));
    assert_eq!(&buf[..], &[5]);
}

#[test]
fn serialize_grows_any_buffer() {
    let mut bytes = BytesMut::from(&[9u8][..]);
    assert!(Header::can_serialize_into(&bytes));
    Header::new(DeliveryGuarantee::Unreliable, OrderingGuarantee::Ordered(Some(7))).serialize(&mut bytes);
    assert_eq!(&bytes[..], &[9, 0, 2]);

    let mut empty = BytesMut::new();
    assert!(Header::can_serialize_into(&empty));
    Header::new(DeliveryGuarantee::Reliable, OrderingGuarantee::Sequenced(None)).serialize(&mut empty);
    let mut frozen = empty.freeze();
    let back = Header::deserialize(&mut frozen);
    assert_eq!(back, Header::new(DeliveryGuarantee::Reliable, OrderingGuarantee::Sequenced(None)));
    assert!(frozen.is_empty());
}
