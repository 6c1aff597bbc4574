//! Shared pixel data (`bytes::Bytes`).
use bytes::Bytes;
use vstd::prelude::*;

verus! {

/// `bytes::Bytes`: a cheaply cloneable, sliceable run of bytes.
#[verifier::external_type_specification]
#[verifier::external_body]
pub struct ExBytes(Bytes);

/// The bytes that a `Bytes` holds.
pub uninterp spec fn contents(b: Bytes) -> Seq<u8>;

/// `Bytes::copy_from_slice`: a `Bytes` of its own that holds the same bytes as
/// the slice.
#[verifier::external_body]
pub(crate) fn bytes_from_slice(data: &[u8]) -> (b: Bytes)
    ensures
        contents(b) == data@,
{
    Bytes::copy_from_slice(data)
}

/// `<Bytes as From<Vec<u8>>>::from`: a `Bytes` that holds the bytes of the
/// vector.
#[verifier::external_body]
pub(crate) fn bytes_from_vec(data: Vec<u8>) -> (b: Bytes)
    ensures
        contents(b) == data@,
{
    Bytes::from(data)
}

/// `<Bytes as Clone>::clone`: another handle on the same bytes.
#[verifier::external_body]
pub(crate) fn bytes_clone(data: &Bytes) -> (b: Bytes)
    ensures
        contents(b) == contents(*data),
{
    data.clone()
}

/// `Bytes::slice`: the bytes from `start` up to `end`. It panics where the
/// range is not inside the data.
#[verifier::external_body]
pub(crate) fn bytes_slice(data: &Bytes, start: usize, end: usize) -> (b: Bytes)
    requires
        start <= end <= contents(*data).len(),
    ensures
        contents(b) == contents(*data).subrange(start as int, end as int),
{
    data.slice(start..end)
}

/// `<Bytes as Deref>::deref`: the bytes as a slice.
#[verifier::external_body]
pub(crate) fn bytes_as_slice(data: &Bytes) -> (s: &[u8])
    ensures
        s@ == contents(*data),
{
    std::ops::Deref::deref(data)
}

} // verus!
