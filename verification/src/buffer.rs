//! The byte buffers of the `bytes` crate, as far as the library uses them.
//!
//! Verus does not look inside these types. What a buffer holds is given a
//! name, and each operation that the library calls is described over that
//! name, as the crate documents it. Nothing in this file is proved.

use vstd::prelude::*;

verus! {

/// `bytes::Bytes`: an immutable buffer of bytes that is cheap to copy.
#[verifier::external_type_specification]
#[verifier::external_body]
pub struct ExBytes(bytes::Bytes);

/// `bytes::BytesMut`: a buffer of bytes that grows at its end.
#[verifier::external_type_specification]
#[verifier::external_body]
pub struct ExBytesMut(bytes::BytesMut);

/// The bytes that an immutable buffer holds, in order.
pub uninterp spec fn bytes_of(buf: bytes::Bytes) -> Seq<u8>;

/// The bytes that a growable buffer holds, in order.
pub uninterp spec fn buffered(buf: bytes::BytesMut) -> Seq<u8>;

/// `Bytes::new` makes a buffer that holds nothing.
pub assume_specification[ bytes::Bytes::new ]() -> (buf: bytes::Bytes)
    ensures
        bytes_of(buf) == Seq::<u8>::empty(),
;

/// `Bytes::len` is the number of bytes held.
pub assume_specification[ bytes::Bytes::len ](buf: &bytes::Bytes) -> (n: usize)
    ensures
        n == bytes_of(*buf).len(),
;

/// `Bytes::clone` makes a second handle on the same bytes.
pub assume_specification[ <bytes::Bytes as Clone>::clone ](buf: &bytes::Bytes) -> (copy: bytes::Bytes)
    ensures
        bytes_of(copy) == bytes_of(*buf),
;

/// `Bytes::as_ref` lends the bytes held as a slice.
pub assume_specification<'a>[ <bytes::Bytes as AsRef<[u8]>>::as_ref ](buf: &'a bytes::Bytes) -> (slice: &'a [u8])
    ensures
        slice@ == bytes_of(*buf),
;

/// `BytesMut::new` makes a buffer that holds nothing.
pub assume_specification[ bytes::BytesMut::new ]() -> (buf: bytes::BytesMut)
    ensures
        buffered(buf) == Seq::<u8>::empty(),
;

/// `BytesMut::len` is the number of bytes held.
pub assume_specification[ bytes::BytesMut::len ](buf: &bytes::BytesMut) -> (n: usize)
    ensures
        n == buffered(*buf).len(),
;

/// `BytesMut::as_ref` lends the bytes held as a slice.
pub assume_specification<'a>[ <bytes::BytesMut as AsRef<[u8]>>::as_ref ](buf: &'a bytes::BytesMut) -> (slice: &'a [u8])
    ensures
        slice@ == buffered(*buf),
;

/// `BytesMut::extend_from_slice` appends the slice to what is held.
pub assume_specification[ bytes::BytesMut::extend_from_slice ](buf: &mut bytes::BytesMut, extend: &[u8])
    ensures
        buffered(*final(buf)) == buffered(*old(buf)) + extend@,
;

/// `BytesMut::split_off` keeps the first `at` bytes and hands back the rest.
/// It panics when `at` is beyond the buffer's capacity, which is never below
/// its length.
pub assume_specification[ bytes::BytesMut::split_off ](buf: &mut bytes::BytesMut, at: usize) -> (rest: bytes::BytesMut)
    requires
        at <= buffered(*old(buf)).len(),
    ensures
        buffered(*final(buf)) == buffered(*old(buf)).take(at as int),
        buffered(rest) == buffered(*old(buf)).skip(at as int),
;

/// `BytesMut::split` hands back all that is held and leaves the buffer empty.
pub assume_specification[ bytes::BytesMut::split ](buf: &mut bytes::BytesMut) -> (all: bytes::BytesMut)
    ensures
        buffered(*final(buf)) == Seq::<u8>::empty(),
        buffered(all) == buffered(*old(buf)),
;

/// `BytesMut::unsplit` appends what `other` holds.
pub assume_specification[ bytes::BytesMut::unsplit ](buf: &mut bytes::BytesMut, other: bytes::BytesMut)
    ensures
        buffered(*final(buf)) == buffered(*old(buf)) + buffered(other),
;

/// `BytesMut::freeze` turns the buffer into an immutable one that holds the
/// same bytes.
pub assume_specification[ bytes::BytesMut::freeze ](buf: bytes::BytesMut) -> (frozen: bytes::Bytes)
    ensures
        bytes_of(frozen) == buffered(buf),
;

} // verus!
