//! The growable buffer that holds a payload.
//!
//! Storage is a `smallvec::SmallVec` with 128 bytes inline, so short payloads
//! never touch the heap and long ones spill onto it. The verifier does not
//! look inside: the contents are named by [`payload_bytes`], and each
//! operation the crate performs on the buffer goes through one of the
//! functions below, whose contracts are taken on trust from the `smallvec`
//! sources.
use smallvec::SmallVec;
use vstd::prelude::*;

verus! {

/// A payload under construction or at rest inside an owned message.
#[verifier::external_body]
#[derive(Debug, PartialEq)]
pub struct PayloadBuffer {
    bytes: SmallVec<[u8; 128]>,
}

/// The bytes a payload buffer holds, in order.
pub uninterp spec fn payload_bytes(buf: PayloadBuffer) -> Seq<u8>;

impl View for PayloadBuffer {
    type V = Seq<u8>;

    open spec fn view(&self) -> Seq<u8> {
        payload_bytes(*self)
    }
}

/// `SmallVec::new`: a buffer that holds nothing. The layout check that the
/// call makes on its backing array holds for an array of bytes.
#[verifier::external_body]
pub(crate) fn empty_payload() -> (buf: PayloadBuffer)
    ensures
        payload_bytes(buf) == Seq::<u8>::empty(),
{
    PayloadBuffer { bytes: SmallVec::new() }
}

/// `SmallVec::with_capacity`: a buffer that holds nothing and has room for
/// `capacity` bytes. The call panics when the requested allocation exceeds
/// `isize::MAX` bytes, which the precondition rules out.
#[verifier::external_body]
pub(crate) fn payload_with_capacity(capacity: usize) -> (buf: PayloadBuffer)
    requires
        capacity <= isize::MAX,
    ensures
        payload_bytes(buf) == Seq::<u8>::empty(),
{
    PayloadBuffer { bytes: SmallVec::with_capacity(capacity) }
}

/// `SmallVec::push`: appends `byte` after the bytes already held. A full
/// buffer grows to the next power of two, and the call panics if that exceeds
/// `isize::MAX` bytes; the precondition keeps the length below a quarter of
/// the address space, where this cannot happen.
#[verifier::external_body]
pub(crate) fn push_payload_byte(buf: &mut PayloadBuffer, byte: u8)
    requires
        payload_bytes(*old(buf)).len() < usize::MAX / 4,
    ensures
        payload_bytes(*final(buf)) == payload_bytes(*old(buf)).push(byte),
{
    buf.bytes.push(byte)
}

/// `SmallVec::len`: the number of bytes held.
#[verifier::external_body]
pub(crate) fn payload_len(buf: &PayloadBuffer) -> (len: usize)
    ensures
        len == payload_bytes(*buf).len(),
{
    buf.bytes.len()
}

/// `SmallVec::as_slice`: the bytes held, borrowed from the buffer.
#[verifier::external_body]
pub(crate) fn payload_as_slice(buf: &PayloadBuffer) -> (bytes: &[u8])
    ensures
        bytes@ == payload_bytes(*buf),
{
    buf.bytes.as_slice()
}

/// `SmallVec::clone`: a buffer of its own that holds the same bytes.
#[verifier::external_body]
pub(crate) fn clone_payload(buf: &PayloadBuffer) -> (copy: PayloadBuffer)
    ensures
        payload_bytes(copy) == payload_bytes(*buf),
{
    PayloadBuffer { bytes: buf.bytes.clone() }
}

} // verus!
