//! The growable byte buffer of the `bytes` crate, as far as a connection
//! uses it: made empty, appended to, read as a slice, and shortened from
//! the front.

use vstd::prelude::*;

verus! {

/// The buffer type of `bytes`, opaque here.
#[verifier::external_type_specification]
#[verifier::external_body]
pub struct ExBytesMut(bytes::BytesMut);

/// The bytes that a buffer holds, in order.
pub uninterp spec fn held(buffer: bytes::BytesMut) -> Seq<u8>;

/// Calls `bytes::BytesMut::with_capacity`.
///
/// Trusted: the new buffer holds nothing. The room asked for is kept
/// small enough for the allocation behind it.
#[verifier::external_body]
pub(crate) fn with_room(capacity: usize) -> (buffer: bytes::BytesMut)
    requires
        capacity <= 0x7fff_ffff,
    ensures
        held(buffer) == Seq::<u8>::empty(),
{
    bytes::BytesMut::with_capacity(capacity)
}

/// Calls `bytes::BytesMut::len`.
///
/// Trusted: the result is the number of bytes held.
#[verifier::external_body]
pub(crate) fn held_len(buffer: &bytes::BytesMut) -> (n: usize)
    ensures
        n == held(*buffer).len(),
{
    buffer.len()
}

/// Borrows the contents through `Deref` of `bytes::BytesMut`.
///
/// Trusted: the slice is the bytes held.
#[verifier::external_body]
pub(crate) fn contents(buffer: &bytes::BytesMut) -> (slice: &[u8])
    ensures
        slice@ == held(*buffer),
{
    &buffer[..]
}

/// Calls `bytes::BytesMut::extend_from_slice`.
///
/// Trusted: the bytes given stand after those that were held. The outside
/// function fails only where the two lengths together exceed a `usize`,
/// which two slices in memory cannot.
#[verifier::external_body]
pub(crate) fn append(buffer: &mut bytes::BytesMut, bytes: &[u8])
    ensures
        held(*final(buffer)) == held(*old(buffer)) + bytes@,
{
    buffer.extend_from_slice(bytes)
}

/// Calls `bytes::Buf::advance` on a `bytes::BytesMut`.
///
/// Trusted: the first `n` bytes leave and the rest stay in order. The
/// outside function stops the program where `n` exceeds what is held, so
/// that is left out.
#[verifier::external_body]
pub(crate) fn advance(buffer: &mut bytes::BytesMut, n: usize)
    requires
        n <= held(*old(buffer)).len(),
    ensures
        held(*final(buffer)) == held(*old(buffer)).skip(n as int),
{
    bytes::Buf::advance(buffer, n)
}

} // verus!
