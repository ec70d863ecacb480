//! Byte buffers handed to callers. They are `bytes::Bytes`; this file states
//! what the two constructors used here produce.

use vstd::prelude::*;
use bytes::Bytes;

verus! {

#[verifier::external_type_specification]
#[verifier::external_body]
pub struct ExBytes(bytes::Bytes);

/// The bytes that a buffer holds, in order.
pub uninterp spec fn bytes_view(buffer: Bytes) -> Seq<u8>;

/// `Bytes::new`: a buffer that holds nothing.
#[verifier::external_body]
pub(crate) fn bytes_new() -> (buffer: Bytes)
    ensures
        bytes_view(buffer) == Seq::<u8>::empty(),
{
    Bytes::new()
}

/// `Bytes::from` on a vector: a buffer that holds the vector's bytes.
#[verifier::external_body]
pub(crate) fn bytes_from_vec(bytes: Vec<u8>) -> (buffer: Bytes)
    ensures
        bytes_view(buffer) == bytes@,
{
    Bytes::from(bytes)
}

} // verus!
