//! The CRC32 checksum, computed by the `crc32fast` crate.
use vstd::prelude::*;

verus! {

/// The standard CRC32 (IEEE) checksum of a byte sequence.
pub uninterp spec fn crc32_of(data: Seq<u8>) -> u32;

/// Relies on crc32fast::hash: the CRC32 checksum of the given bytes, which
/// depends on those bytes alone.
#[verifier::external_body]
pub(crate) fn crc32(data: &[u8]) -> (r: u32)
    ensures
        r == crc32_of(data@),
{
    crc32fast::hash(data)
}

} // verus!
