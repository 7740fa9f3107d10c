//! Frame flags (bitmask in the header's second byte).

use vstd::prelude::*;

verus! {

/// A CRC32 of the payload follows it in the last four bytes.
pub const HAS_CHECKSUM: u8 = 0x01;

/// The payload is compressed.
pub const COMPRESSED: u8 = 0x02;

/// The frame should be handled before others.
pub const HIGH_PRIORITY: u8 = 0x04;

/// Extensions follow the header (reserved for later versions).
pub const HAS_EXTENSIONS: u8 = 0x08;

/// Every bit that some flag defines; the other bits are reserved.
pub const DEFINED: u8 = HAS_CHECKSUM | COMPRESSED | HIGH_PRIORITY | HAS_EXTENSIONS;

} // verus!
