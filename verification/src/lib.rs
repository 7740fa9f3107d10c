//! Framed Message Protocol (FMP): a fixed 8-byte header (version, flags,
//! type, reserved byte, big-endian `u32` length) followed by the payload,
//! with an optional trailing CRC32 over the payload.

pub mod buffers;
pub mod checksum;
pub mod error;
pub mod frame;
pub mod framed;
pub mod laws;
pub mod text;

pub use error::{FmpError, Result};
pub use frame::{flags, Frame, FrameType, DEFAULT_MAX_FRAME_SIZE, VERSION};
pub use framed::{FramedRead, FramedStream, FramedWrite};
