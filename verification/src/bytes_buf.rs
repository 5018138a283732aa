//! The `bytes::BytesMut` packet buffer, as the packetizer uses it.

use vstd::prelude::*;
use bytes::BufMut;
use bytes::BytesMut;

verus! {

#[verifier::external_type_specification]
#[verifier::external_body]
pub struct ExBytesMut(BytesMut);

/// The bytes a `BytesMut` holds, in order.
pub uninterp spec fn bytes_mut_contents(b: BytesMut) -> Seq<u8>;

/// `BytesMut::with_capacity`: an empty buffer (its capacity is not stated).
/// The underlying `Vec::with_capacity` panics above `isize::MAX` bytes.
#[verifier::external_body]
pub fn bytes_with_capacity(capacity: usize) -> (b: BytesMut)
    requires
        capacity <= isize::MAX,
    ensures
        bytes_mut_contents(b) == Seq::<u8>::empty(),
{
    BytesMut::with_capacity(capacity)
}

/// `BytesMut::extend_from_slice`: appends `s`; it reserves room first, which
/// panics when the length would pass `isize::MAX`.
#[verifier::external_body]
pub fn bytes_extend(b: &mut BytesMut, s: &[u8])
    requires
        bytes_mut_contents(*old(b)).len() + s@.len() <= isize::MAX,
    ensures
        bytes_mut_contents(*final(b)) == bytes_mut_contents(*old(b)) + s@,
{
    b.extend_from_slice(s)
}

/// `BufMut::put_u8` on a `BytesMut`: appends one byte (through `extend_from_slice`).
#[verifier::external_body]
pub fn bytes_put_u8(b: &mut BytesMut, v: u8)
    requires
        bytes_mut_contents(*old(b)).len() + 1 <= isize::MAX,
    ensures
        bytes_mut_contents(*final(b)) == bytes_mut_contents(*old(b)).push(v),
{
    b.put_u8(v)
}

} // verus!
