//! The byte buffers of the `bytes` crate, as this library sees them.
//!
//! `BytesMut` and `Bytes` are opaque to Verus. Each is known only by
//! the sequence of bytes it holds, [`held`] and [`shared`], and by the
//! contracts below, one for each method that the codecs call. None of these
//! contracts is proved: each restates what the `bytes` crate documents and
//! implements. Where a method is documented to panic, the contract asks
//! the caller to stay clear of it, and those that the decoders call on
//! their own buffers are declared not to unwind. What happens when memory
//! runs out, or when an allocation cannot grow any further, is outside of
//! the contracts, as it is for `Vec` in `vstd`.

use vstd::prelude::*;
use bytes::Buf;
use bytes::BufMut;
use bytes::Bytes;
use bytes::BytesMut;

verus! {

/// `bytes::BytesMut`, carried through verified code as an opaque value.
#[verifier::external_type_specification]
#[verifier::external_body]
pub struct ExBytesMut(bytes::BytesMut);

/// `bytes::Bytes`, carried through verified code as an opaque value.
#[verifier::external_type_specification]
#[verifier::external_body]
pub struct ExBytes(bytes::Bytes);

/// The bytes that a `BytesMut` holds, from its read position to its end:
/// what `&buffer[..]` shows.
pub uninterp spec fn held(buffer: BytesMut) -> Seq<u8>;

/// The bytes that a `Bytes` holds, from its read position to its end: what
/// `&item[..]` shows.
pub uninterp spec fn shared(item: Bytes) -> Seq<u8>;

/// No buffer holds more than `isize::MAX` bytes, so this many can still be
/// appended to one that holds `len`.
pub open spec fn room(len: nat) -> int {
    isize::MAX - len
}

/// `BytesMut::with_capacity`: an empty buffer. It allocates through
/// `Vec::with_capacity`, which panics above `isize::MAX` bytes.
#[verifier::external_body]
pub(crate) fn with_capacity(capacity: usize) -> (buffer: BytesMut)
    requires
        capacity <= isize::MAX,
    ensures
        held(buffer) == Seq::<u8>::empty(),
{
    BytesMut::with_capacity(capacity)
}

/// `BytesMut::len`: the number of bytes held.
#[verifier::external_body]
pub(crate) fn len(buffer: &BytesMut) -> (len: usize)
    ensures
        len == held(*buffer).len(),
    no_unwind
{
    buffer.len()
}

/// `Buf::has_remaining` on a `BytesMut`: whether any byte is held.
#[verifier::external_body]
pub(crate) fn has_remaining(buffer: &BytesMut) -> (any: bool)
    ensures
        any == (held(*buffer).len() > 0),
{
    buffer.has_remaining()
}

/// `Buf::get_u8` on a `BytesMut`: takes the first byte out and returns it.
/// It panics on an empty buffer.
#[verifier::external_body]
pub(crate) fn get_u8(buffer: &mut BytesMut) -> (value: u8)
    requires
        held(*old(buffer)).len() > 0,
    ensures
        value == held(*old(buffer))[0],
        held(*final(buffer)) == held(*old(buffer)).skip(1),
{
    buffer.get_u8()
}

/// `BufMut::put_u8` on a `BytesMut`: appends one byte, growing the buffer
/// as needed. It panics when no room is left under `isize::MAX`.
#[verifier::external_body]
pub(crate) fn put_u8(buffer: &mut BytesMut, value: u8)
    requires
        room(held(*old(buffer)).len()) >= 1,
    ensures
        held(*final(buffer)) == held(*old(buffer)).push(value),
    no_unwind
{
    buffer.put_u8(value)
}

/// `BufMut::put_slice` on a `BytesMut`: appends the bytes of a slice,
/// growing the buffer as needed. It panics when they do not fit under
/// `isize::MAX`.
#[verifier::external_body]
pub(crate) fn put_slice(buffer: &mut BytesMut, bytes: &[u8])
    requires
        room(held(*old(buffer)).len()) >= bytes@.len(),
    ensures
        held(*final(buffer)) == held(*old(buffer)) + bytes@,
{
    buffer.put_slice(bytes)
}

/// `BytesMut::reserve`: makes room for `additional` more bytes and leaves
/// the bytes held as they are. It panics when the capacity asked for
/// overflows.
#[verifier::external_body]
pub(crate) fn reserve(buffer: &mut BytesMut, additional: usize)
    requires
        room(held(*old(buffer)).len()) >= additional,
    ensures
        held(*final(buffer)) == held(*old(buffer)),
    no_unwind
{
    buffer.reserve(additional)
}

/// `BytesMut::clear`: drops every byte held.
#[verifier::external_body]
pub(crate) fn clear(buffer: &mut BytesMut)
    ensures
        held(*final(buffer)) == Seq::<u8>::empty(),
    no_unwind
{
    buffer.clear()
}

/// `BytesMut::split`: hands out every byte held in a buffer of its own and
/// leaves this one empty.
#[verifier::external_body]
pub(crate) fn split(buffer: &mut BytesMut) -> (taken: BytesMut)
    ensures
        held(taken) == held(*old(buffer)),
        held(*final(buffer)) == Seq::<u8>::empty(),
    no_unwind
{
    buffer.split()
}

/// `BytesMut::split_to`: hands out the first `at` bytes in a buffer of
/// their own and keeps the rest. It panics when `at` is beyond the bytes
/// held.
#[verifier::external_body]
pub(crate) fn split_to(buffer: &mut BytesMut, at: usize) -> (taken: BytesMut)
    requires
        at <= held(*old(buffer)).len(),
    ensures
        held(taken) == held(*old(buffer)).take(at as int),
        held(*final(buffer)) == held(*old(buffer)).skip(at as int),
    no_unwind
{
    buffer.split_to(at)
}

/// `Bytes::len`: the number of bytes held.
#[verifier::external_body]
pub(crate) fn shared_len(item: &Bytes) -> (len: usize)
    ensures
        len == shared(*item).len(),
{
    item.len()
}

/// `Buf::has_remaining` on a `Bytes`: whether any byte is held.
#[verifier::external_body]
pub(crate) fn shared_has_remaining(item: &Bytes) -> (any: bool)
    ensures
        any == (shared(*item).len() > 0),
{
    item.has_remaining()
}

/// `Buf::get_u8` on a `Bytes`: takes the first byte out and returns it. It
/// panics on an empty `Bytes`.
#[verifier::external_body]
pub(crate) fn shared_get_u8(item: &mut Bytes) -> (value: u8)
    requires
        shared(*old(item)).len() > 0,
    ensures
        value == shared(*old(item))[0],
        shared(*final(item)) == shared(*old(item)).skip(1),
{
    item.get_u8()
}

/// `AsRef<[u8]>::as_ref` on a `Bytes`: the bytes held, as a slice.
#[verifier::external_body]
pub(crate) fn shared_as_slice(item: &Bytes) -> (bytes: &[u8])
    ensures
        bytes@ == shared(*item),
{
    item.as_ref()
}

} // verus!
