//! Byte buffers of the `bytes` crate, as verified code sees them.
//!
//! A `Bytes` or `BytesMut` is opaque to the verifier. What it holds is named
//! by [`bytes_view`] and [`bytes_mut_view`]; the contracts below say, over
//! those names, what each buffer operation used by this crate does.

use bytes::{Bytes, BytesMut};
use vstd::prelude::*;

verus! {

#[verifier::external_type_specification]
#[verifier::external_body]
pub struct ExBytes(Bytes);

#[verifier::external_type_specification]
#[verifier::external_body]
pub struct ExBytesMut(BytesMut);

/// The octets that a `Bytes` holds, first to last.
pub uninterp spec fn bytes_view(b: Bytes) -> Seq<u8>;

/// The octets that a `BytesMut` holds, first to last.
pub uninterp spec fn bytes_mut_view(b: BytesMut) -> Seq<u8>;

/// `Bytes::new` makes an empty buffer.
pub assume_specification[ Bytes::new ]() -> (b: Bytes)
    ensures
        bytes_view(b) == Seq::<u8>::empty(),
;

/// `Bytes::copy_from_slice` makes a buffer holding a copy of `data`.
pub assume_specification[ Bytes::copy_from_slice ](data: &[u8]) -> (b: Bytes)
    ensures
        bytes_view(b) == data@,
;

/// `Bytes::len` is the number of octets held.
pub assume_specification[ Bytes::len ](b: &Bytes) -> (n: usize)
    ensures
        n == bytes_view(*b).len(),
;

/// `Bytes::clone` hands out a second handle on the same octets.
pub assume_specification[ <Bytes as Clone>::clone ](b: &Bytes) -> (c: Bytes)
    ensures
        bytes_view(c) == bytes_view(*b),
;

/// `Bytes::as_ref` borrows the octets held as a slice.
pub assume_specification<'a>[ <Bytes as AsRef<[u8]>>::as_ref ](b: &'a Bytes) -> (s: &'a [u8])
    ensures
        s@ == bytes_view(*b),
;

/// `BytesMut::new` makes an empty growable buffer.
pub assume_specification[ BytesMut::new ]() -> (b: BytesMut)
    ensures
        bytes_mut_view(b) == Seq::<u8>::empty(),
;

/// `BytesMut::extend_from_slice` appends `extend` after what is held.
pub assume_specification[ BytesMut::extend_from_slice ](b: &mut BytesMut, extend: &[u8])
    ensures
        bytes_mut_view(*final(b)) == bytes_mut_view(*old(b)) + extend@,
;

/// `BytesMut::freeze` turns the buffer read-only, keeping what it holds.
pub assume_specification[ BytesMut::freeze ](b: BytesMut) -> (frozen: Bytes)
    ensures
        bytes_view(frozen) == bytes_mut_view(b),
;

} // verus!
