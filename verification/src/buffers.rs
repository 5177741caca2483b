//! The byte buffers of the `bytes` crate, as the rest of the library sees them.
//!
//! `Bytes` and `BytesMut` are opaque to Verus. What they hold is named by
//! `bytes_contents` and `bytes_mut_contents`; each wrapper below states how
//! the call it makes reads or changes those contents.
use bytes::{Buf, BufMut, Bytes, BytesMut};
use vstd::prelude::*;

verus! {

/// An immutable, cheaply cloneable byte buffer (`bytes::Bytes`).
#[verifier::external_type_specification]
#[verifier::external_body]
pub struct ExBytes(Bytes);

/// A growable byte buffer (`bytes::BytesMut`).
#[verifier::external_type_specification]
#[verifier::external_body]
pub struct ExBytesMut(BytesMut);

/// The bytes that a `Bytes` holds, from its current position to its end.
pub uninterp spec fn bytes_contents(b: Bytes) -> Seq<u8>;

/// The bytes that a `BytesMut` holds.
pub uninterp spec fn bytes_mut_contents(b: BytesMut) -> Seq<u8>;

/// Whether `n` more bytes can be appended to a `BytesMut` that holds `len`
/// bytes without the growth of its storage overflowing: `4 * len + 2 * n`
/// bytes, the most that growing can ask the allocator for (see
/// `bytes_mut_put_slice`), stay within `isize::MAX`.
pub open spec fn can_append(len: int, n: int) -> bool {
    4 * len + 2 * n <= isize::MAX as int
}

/// `BytesMut::new`: an empty buffer.
#[verifier::external_body]
pub(crate) fn bytes_mut_new() -> (b: BytesMut)
    ensures
        bytes_mut_contents(b) == Seq::<u8>::empty(),
{
    BytesMut::new()
}

/// `BytesMut::len`: the number of bytes the buffer holds.
#[verifier::external_body]
pub(crate) fn bytes_mut_len(b: &BytesMut) -> (len: usize)
    ensures
        len == bytes_mut_contents(*b).len(),
{
    b.len()
}

/// `BufMut::put_u8` on a `BytesMut`: appends one byte, by way of
/// `BytesMut::put_slice` with a one-byte slice, under the same bound.
#[verifier::external_body]
pub(crate) fn bytes_mut_put_u8(b: &mut BytesMut, n: u8)
    requires
        can_append(bytes_mut_contents(*old(b)).len() as int, 1),
    ensures
        bytes_mut_contents(*final(b)) == bytes_mut_contents(*old(b)).push(n),
{
    b.put_u8(n)
}

/// `BufMut::put_slice` on a `BytesMut`: appends the bytes of `src`, growing
/// the buffer when they do not fit (`extend_from_slice`, then `reserve`).
///
/// Growing can panic only when the storage it asks for passes `isize::MAX`
/// bytes. `reserve` returns at once when the bytes fit; otherwise the
/// capacity is below `len + n`, and each way `reserve_inner` grows (moving
/// the bytes to the front of the storage they have, taking a new vector of
/// `max(len + n, 64 KiB)` bytes, or growing the vector they are in) asks for
/// less than `4 * len + 2 * n` bytes or at most 64 KiB. That bound rests on
/// `Vec::reserve` growing a vector to the larger of twice its capacity and
/// the size asked for, which is what the standard library does; its
/// documentation only says that it may reserve more than asked.
#[verifier::external_body]
pub(crate) fn bytes_mut_put_slice(b: &mut BytesMut, src: &[u8])
    requires
        can_append(bytes_mut_contents(*old(b)).len() as int, src@.len() as int),
    ensures
        bytes_mut_contents(*final(b)) == bytes_mut_contents(*old(b)) + src@,
{
    b.put_slice(src)
}

/// `BytesMut::freeze`: the same bytes, as an immutable `Bytes`.
#[verifier::external_body]
pub(crate) fn bytes_mut_freeze(b: BytesMut) -> (frozen: Bytes)
    ensures
        bytes_contents(frozen) == bytes_mut_contents(b),
{
    b.freeze()
}

/// `Buf::get_u8` on a `Bytes`: takes the first byte and advances past it.
/// It panics on an empty buffer, which `requires` leaves out.
#[verifier::external_body]
pub(crate) fn bytes_get_u8(b: &mut Bytes) -> (n: u8)
    requires
        bytes_contents(*old(b)).len() >= 1,
    ensures
        n == bytes_contents(*old(b))[0],
        bytes_contents(*final(b)) == bytes_contents(*old(b)).drop_first(),
{
    b.get_u8()
}

/// `Bytes::copy_from_slice`: a new `Bytes` holding a copy of `data`.
#[verifier::external_body]
pub(crate) fn bytes_copy_from_slice(data: &[u8]) -> (b: Bytes)
    ensures
        bytes_contents(b) == data@,
{
    Bytes::copy_from_slice(data)
}

/// `Bytes`'s `Deref` to `[u8]`: the bytes it holds, as a slice.
#[verifier::external_body]
pub(crate) fn bytes_as_slice(b: &Bytes) -> (s: &[u8])
    ensures
        s@ == bytes_contents(*b),
{
    b
}

} // verus!
