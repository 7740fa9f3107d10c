//! Error types for the Framed Message Protocol.

use vstd::prelude::*;

verus! {

/// Main error type for FMP operations.
///
/// Errors that come from the transport (`Io`) or from elsewhere (`Other`)
/// carry their message as text, so that the protocol logic can hold them.
#[derive(Debug)]
pub enum FmpError {
    /// An I/O error of the underlying transport.
    Io(String),
    /// The frame header names a protocol version other than the supported one.
    UnsupportedVersion(u8),
    /// The header announces a payload longer than the configured maximum.
    FrameTooLarge { length: u32, max: usize },
    /// The frame carries a checksum that does not match its payload.
    ChecksumMismatch,
    /// Invalid flags or reserved bits are set.
    InvalidFlags,
    /// The bytes do not form a frame.
    Parse(String),
    /// The peer broke the protocol.
    ProtocolViolation(String),
    /// The connection closed in the middle of a frame.
    UnexpectedClose,
    /// No frame came in time.
    Timeout,
    /// Any other error.
    Other(String),
}

/// Result type of FMP operations.
pub type Result<T> = std::result::Result<T, FmpError>;

} // verus!
