//! Integration point for the trailing integrity checksum.
//!
//! The checksum algorithm itself is the outside crate's business: this
//! module only carries its running state and names its results, so that the
//! transform's contracts can say "the trailer holds the checksum of exactly
//! the payload bytes" without restating CRC-32 arithmetic.

use vstd::prelude::*;

verus! {

/// Running CRC-32 checksum state from the checksum crate, together with the
/// bytes fed so far (named by `checksum_fed`). Opaque to the verifier: all
/// access goes through the trusted wrappers below.
#[verifier::external_body]
pub struct ChecksumState {
    inner: Box<dyn aws_smithy_checksums::http::HttpChecksum>,
}

/// The bytes fed into a checksum state so far.
pub uninterp spec fn checksum_fed(s: ChecksumState) -> Seq<u8>;

/// The checksum trailer value for a payload: the base64 of the big-endian
/// CRC-32 digest of exactly these bytes. A function of the bytes alone.
pub uninterp spec fn crc32_trailer_value(data: Seq<u8>) -> Seq<u8>;

/// Relies on `aws_smithy_checksums::ChecksumAlgorithm::Crc32.into_impl()`:
/// a freshly constructed CRC-32 calculator has no bytes fed.
#[verifier::external_body]
pub fn checksum_new() -> (s: ChecksumState)
    ensures
        checksum_fed(s) == Seq::<u8>::empty(),
{
    ChecksumState { inner: aws_smithy_checksums::ChecksumAlgorithm::Crc32.into_impl() }
}

/// Relies on `aws_smithy_checksums::Checksum::update`: feeds the given bytes
/// into the checksum's internal state, after everything fed before.
#[verifier::external_body]
pub fn checksum_update(s: &mut ChecksumState, data: &[u8])
    ensures
        checksum_fed(*final(s)) == checksum_fed(*old(s)) + data@,
{
    s.inner.update(data);
}

/// Relies on `aws_smithy_checksums::http::HttpChecksum::header_value`: the
/// finalized digest of all bytes fed, base64-encoded. CRC-32 digests are four
/// bytes, so the base64 value is always eight bytes of the base64 alphabet,
/// which holds no CR, LF or colon.
#[verifier::external_body]
pub fn checksum_finalize(s: ChecksumState) -> (r: Vec<u8>)
    ensures
        r@ == crc32_trailer_value(checksum_fed(s)),
        r@.len() == 8,
        forall|i: int| 0 <= i < r@.len() ==> r@[i] != crate::wire::CR && r@[i] != crate::wire::LF
            && r@[i] != crate::wire::COLON,
{
    let value = s.inner.header_value();
    value.as_bytes().to_vec()
}

} // verus!
