//! The byte accumulator of a frame reader: `bytes::BytesMut`, reached through
//! a few trusted wrappers whose contracts are stated over what the buffer holds.
use bytes::{Bytes, BytesMut};
use vstd::prelude::*;

verus! {

#[verifier::external_type_specification]
#[verifier::external_body]
pub struct ExBytesMut(BytesMut);

#[verifier::external_type_specification]
#[verifier::external_body]
pub struct ExBytes(Bytes);

/// The bytes that a `BytesMut` holds, in order.
pub uninterp spec fn buffer_contents(b: BytesMut) -> Seq<u8>;

/// The bytes that a `Bytes` holds, in order.
pub uninterp spec fn frame_contents(b: Bytes) -> Seq<u8>;

/// `BytesMut::with_capacity`: a new buffer that holds no bytes. The capacity is a
/// hint for the allocator and leaves what the buffer holds unchanged; the `Vec`
/// it allocates panics above `isize::MAX` bytes, which `requires` leaves out.
#[verifier::external_body]
pub fn buffer_with_capacity(capacity: usize) -> (b: BytesMut)
    requires
        capacity <= isize::MAX,
    ensures
        buffer_contents(b) == Seq::<u8>::empty(),
{
    BytesMut::with_capacity(capacity)
}

/// `BytesMut::len`: the number of bytes the buffer holds.
#[verifier::external_body]
pub fn buffer_len(b: &BytesMut) -> (n: usize)
    ensures
        n == buffer_contents(*b).len(),
{
    b.len()
}

/// `<BytesMut as AsRef<[u8]>>::as_ref`: the held bytes as a slice.
#[verifier::external_body]
pub fn buffer_as_slice(b: &BytesMut) -> (s: &[u8])
    ensures
        s@ == buffer_contents(*b),
{
    b.as_ref()
}

/// `BytesMut::extend_from_slice`: appends `data` after the held bytes. It panics
/// when the new length overflows the capacity arithmetic (above `isize::MAX`),
/// which `requires` leaves out.
#[verifier::external_body]
pub fn buffer_extend(b: &mut BytesMut, data: &[u8])
    requires
        buffer_contents(*old(b)).len() + data@.len() <= isize::MAX,
    ensures
        buffer_contents(*final(b)) == buffer_contents(*old(b)) + data@,
{
    b.extend_from_slice(data)
}

/// `BytesMut::split_to` followed by `BytesMut::freeze`: the first `at` bytes
/// leave the buffer and come back as an immutable `Bytes`; the buffer keeps the
/// rest. `split_to` panics when `at` exceeds the length, which `requires` leaves out.
#[verifier::external_body]
pub fn buffer_split_to(b: &mut BytesMut, at: usize) -> (f: Bytes)
    requires
        at <= buffer_contents(*old(b)).len(),
    ensures
        frame_contents(f) == buffer_contents(*old(b)).subrange(0, at as int),
        buffer_contents(*final(b)) == buffer_contents(*old(b)).subrange(
            at as int,
            buffer_contents(*old(b)).len() as int,
        ),
{
    b.split_to(at).freeze()
}

} // verus!
