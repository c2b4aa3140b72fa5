//! Contracts for `tokio_core::io::EasyBuf`, the reference-counted byte buffer
//! that inbound bytes accumulate in.

use tokio_core::io::EasyBuf;
use vstd::prelude::*;

verus! {

/// `tokio_core::io::EasyBuf`, taken as an opaque value: all that is said of
/// one is said through [`buffered`].
#[verifier::external_type_specification]
#[verifier::external_body]
pub struct ExEasyBuf(tokio_core::io::EasyBuf);

/// The bytes that an `EasyBuf` currently holds, front first.
pub uninterp spec fn buffered(buf: EasyBuf) -> Seq<u8>;

/// `EasyBuf::as_slice`. Trusted: a view of exactly the bytes held, in order.
pub assume_specification[ EasyBuf::as_slice ](buf: &EasyBuf) -> (bytes: &[u8])
    ensures
        bytes@ == buffered(*buf),
;

/// `EasyBuf::drain_to`. Trusted: the first `at` bytes move to the returned
/// buffer and the rest stay, both in order. The call panics when `at` is more
/// than the number of bytes held, which the precondition rules out.
pub assume_specification[ EasyBuf::drain_to ](buf: &mut EasyBuf, at: usize) -> (front: EasyBuf)
    requires
        at <= buffered(*old(buf)).len(),
    ensures
        buffered(front) == buffered(*old(buf)).subrange(0, at as int),
        buffered(*final(buf)) == buffered(*old(buf)).subrange(
            at as int,
            buffered(*old(buf)).len() as int,
        ),
;

} // verus!
