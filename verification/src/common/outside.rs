//! The calls into the `bytes` and `simdutf8` crates.
//!
//! Nothing in this file is proved: each contract states what the outside
//! function is documented to do.

use vstd::prelude::*;
use vstd::utf8::{decode_utf8, valid_utf8};

verus! {

/// The reference-counted byte buffer of the `bytes` crate.
#[verifier::external_type_specification]
#[verifier::external_body]
pub struct ExBytes(bytes::Bytes);

/// The bytes that a `bytes::Bytes` holds, in order.
pub uninterp spec fn bytes_contents(b: bytes::Bytes) -> Seq<u8>;

/// `<bytes::Bytes as Clone>::clone`: a second handle on the same bytes.
pub assume_specification[ <bytes::Bytes as Clone>::clone ](b: &bytes::Bytes) -> (res: bytes::Bytes)
    ensures
        bytes_contents(res) == bytes_contents(*b),
;

/// `bytes::Bytes::copy_from_slice`: a new buffer holding a copy of `data`.
#[verifier::external_body]
pub(crate) fn bytes_from_slice(data: &[u8]) -> (b: bytes::Bytes)
    ensures
        bytes_contents(b) == data@,
{
    bytes::Bytes::copy_from_slice(data)
}

/// `<bytes::Bytes as AsRef<[u8]>>::as_ref`: the buffer's content as a slice.
#[verifier::external_body]
pub(crate) fn bytes_as_slice(b: &bytes::Bytes) -> (s: &[u8])
    ensures
        s@ == bytes_contents(*b),
{
    b.as_ref()
}

/// `simdutf8::basic::from_utf8`: `Ok` with the input seen as a string exactly
/// when the input is well-formed UTF-8. Nothing is copied: the string
/// borrows the input.
#[verifier::external_body]
pub(crate) fn str_from_utf8<'a>(data: &'a [u8]) -> (res: Option<&'a str>)
    ensures
        res is Some == valid_utf8(data@),
        res matches Some(s) ==> s@ == decode_utf8(data@),
{
    match simdutf8::basic::from_utf8(data) {
        Ok(s) => Some(s),
        Err(_) => None,
    }
}

} // verus!
