//! CRC32 (IEEE) of payloads, computed by `crc32fast`.

use vstd::prelude::*;

verus! {

/// The CRC32 (IEEE 802.3 polynomial, as `crc32fast` computes it) of a byte
/// sequence. It depends on the bytes alone.
pub uninterp spec fn crc32_of(data: Seq<u8>) -> u32;

/// `crc32fast::hash`: the CRC32 of `data` (a fresh `Hasher`, one `update`
/// with `data`, then `finalize`). The claim is only that the result is the
/// CRC32 of exactly these bytes; its value is not stated.
#[verifier::external_body]
pub(crate) fn crc32(data: &[u8]) -> (c: u32)
    ensures
        c == crc32_of(data@),
{
    crc32fast::hash(data)
}

} // verus!
