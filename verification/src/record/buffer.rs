//! The byte buffer of the `molecule` crate, which owns the bytes of every
//! entity.

use vstd::prelude::*;

verus! {

/// A byte buffer of the `molecule` crate (`molecule::bytes::Bytes`), in
/// which every entity keeps its bytes. What it holds is known through
/// `buffer_bytes` alone.
#[verifier::external_body]
pub struct Buffer {
    inner: molecule::bytes::Bytes,
}

/// The bytes that a buffer holds, in order.
pub uninterp spec fn buffer_bytes(buffer: Buffer) -> Seq<u8>;

/// Makes a buffer from a vector with `From<Vec<u8>>` of `molecule::bytes::Bytes`.
///
/// Taken on trust: the buffer holds the bytes of the vector.
#[verifier::external_body]
pub(crate) fn buffer_from_vec(bytes: Vec<u8>) -> (buffer: Buffer)
    ensures
        buffer_bytes(buffer) == bytes@,
{
    Buffer { inner: molecule::bytes::Bytes::from(bytes) }
}

/// Copies a part of a buffer with `molecule::bytes::Bytes::slice`.
///
/// Taken on trust: the new buffer holds the bytes from `start` up to, not
/// including, `end`. The call panics where the range does not lie in the
/// buffer, which is ruled out.
#[verifier::external_body]
pub(crate) fn buffer_slice(buffer: &Buffer, start: usize, end: usize) -> (part: Buffer)
    requires
        start <= end <= buffer_bytes(*buffer).len(),
    ensures
        buffer_bytes(part) == buffer_bytes(*buffer).subrange(start as int, end as int),
{
    Buffer { inner: buffer.inner.slice(start..end) }
}

/// Borrows the bytes of a buffer with `Deref` of `molecule::bytes::Bytes`.
///
/// Taken on trust: the slice holds the bytes of the buffer.
#[verifier::external_body]
pub(crate) fn buffer_as_slice(buffer: &Buffer) -> (slice: &[u8])
    ensures
        slice@ == buffer_bytes(*buffer),
{
    &buffer.inner[..]
}

impl View for Buffer {
    type V = Seq<u8>;

    open spec fn view(&self) -> Seq<u8> {
        buffer_bytes(*self)
    }
}

} // verus!
