//! Core frame definition, wire encoding and decoding, and message type helpers.

use bytes::{Bytes, BytesMut};
use vstd::prelude::*;
use vstd::string::StringSliceAdditionalSpecFns;

use crate::buffers::{
    be_u16_bytes, be_u32_bytes, bytes_as_slice, bytes_copy_from_slice, bytes_empty,
    bytes_from_vec, bytes_mut_advance, bytes_mut_as_slice, bytes_mut_freeze, bytes_mut_put_slice,
    bytes_mut_put_u16, bytes_mut_put_u32, bytes_mut_put_u8, bytes_mut_split_to, bytes_mut_view,
    bytes_mut_with_capacity, bytes_view, max_buffer_len,
};
use crate::checksum::{crc32, crc32_of};
use crate::error::{FmpError, Result};
use crate::text::{incomplete_frame_message, incomplete_message, too_short_message};

pub mod flags;

verus! {

/// Current protocol version.
pub const VERSION: u8 = 0x01;

/// Maximum recommended frame size (16 MiB). Implementations should enforce this or lower.
pub const DEFAULT_MAX_FRAME_SIZE: usize = 16 * 1024 * 1024;

/// Well-known frame types, in the order of their wire values 0x00 to 0x06.
/// 0x07-0x0F are reserved for control extensions, 0x10 and up are
/// application defined.
#[derive(Debug, Clone, Copy, PartialEq, Eq, Structural, Hash)]
pub enum FrameType {
    Data,
    Ping,
    Pong,
    Close,
    Error,
    Handshake,
    Ack,
}

/// The frame type that a wire byte names; unknown values read as `Data`
/// (forward compatibility: a higher layer decides).
pub open spec fn frame_type_from_byte(v: u8) -> FrameType {
    if v == 0 {
        FrameType::Data
    } else if v == 1 {
        FrameType::Ping
    } else if v == 2 {
        FrameType::Pong
    } else if v == 3 {
        FrameType::Close
    } else if v == 4 {
        FrameType::Error
    } else if v == 5 {
        FrameType::Handshake
    } else if v == 6 {
        FrameType::Ack
    } else {
        FrameType::Data
    }
}

/// The wire byte of a frame type.
pub open spec fn frame_type_byte(t: FrameType) -> u8 {
    match t {
        FrameType::Data => 0,
        FrameType::Ping => 1,
        FrameType::Pong => 2,
        FrameType::Close => 3,
        FrameType::Error => 4,
        FrameType::Handshake => 5,
        FrameType::Ack => 6,
    }
}

impl From<u8> for FrameType {
    fn from(v: u8) -> Self {
        if v == 0 {
            FrameType::Data
        } else if v == 1 {
            FrameType::Ping
        } else if v == 2 {
            FrameType::Pong
        } else if v == 3 {
            FrameType::Close
        } else if v == 4 {
            FrameType::Error
        } else if v == 5 {
            FrameType::Handshake
        } else if v == 6 {
            FrameType::Ack
        } else {
            FrameType::Data
        }
    }
}

impl vstd::std_specs::convert::FromSpecImpl<u8> for FrameType {
    open spec fn obeys_from_spec() -> bool {
        true
    }

    open spec fn from_spec(v: u8) -> Self {
        frame_type_from_byte(v)
    }
}

impl From<FrameType> for u8 {
    fn from(t: FrameType) -> Self {
        match t {
            FrameType::Data => 0,
            FrameType::Ping => 1,
            FrameType::Pong => 2,
            FrameType::Close => 3,
            FrameType::Error => 4,
            FrameType::Handshake => 5,
            FrameType::Ack => 6,
        }
    }
}

impl vstd::std_specs::convert::FromSpecImpl<FrameType> for u8 {
    open spec fn obeys_from_spec() -> bool {
        true
    }

    open spec fn from_spec(t: FrameType) -> Self {
        frame_type_byte(t)
    }
}

/// A single framed message on the wire.
#[derive(Debug, Clone, PartialEq, Eq)]
pub struct Frame {
    pub version: u8,
    pub flags: u8,
    pub frame_type: FrameType,
    pub length: u32,
    pub payload: Bytes,
}

/// A frame as plain values: its header fields and its payload bytes.
pub struct FrameView {
    pub version: u8,
    pub flags: u8,
    pub frame_type: FrameType,
    pub length: u32,
    pub payload: Seq<u8>,
}

impl View for Frame {
    type V = FrameView;

    open spec fn view(&self) -> FrameView {
        FrameView {
            version: self.version,
            flags: self.flags,
            frame_type: self.frame_type,
            length: self.length,
            payload: bytes_view(self.payload),
        }
    }
}

/// A frame of the current version with no flags, whose `length` is the
/// payload's length (cut to 32 bits, as `as u32` does).
pub open spec fn plain_frame(frame_type: FrameType, payload: Seq<u8>) -> FrameView {
    FrameView {
        version: VERSION,
        flags: 0,
        frame_type,
        length: payload.len() as u32,
        payload,
    }
}

/// The PONG frame of a clock reading: the reading in milliseconds since the
/// Unix epoch, 8 bytes big-endian, with no reading counted as 0.
pub open spec fn pong_clock_frame(now: Option<u64>) -> FrameView {
    plain_frame(
        FrameType::Pong,
        be_u64_bytes(
            match now {
                Some(ms) => ms,
                None => 0,
            },
        ),
    )
}

/// Big-endian bytes of a `u64`.
pub open spec fn be_u64_bytes(n: u64) -> Seq<u8> {
    seq![
        (n / 0x100_0000_0000_0000) as u8,
        ((n / 0x1_0000_0000_0000) % 256) as u8,
        ((n / 0x100_0000_0000) % 256) as u8,
        ((n / 0x1_0000_0000) % 256) as u8,
        ((n / 0x100_0000) % 256) as u8,
        ((n / 0x1_0000) % 256) as u8,
        ((n / 256) % 256) as u8,
        (n % 256) as u8,
    ]
}

/// The big-endian `u32` stored in `s[i..i + 4]`.
pub open spec fn be_u32_at_spec(s: Seq<u8>, i: int) -> int {
    (s[i] as int) * 0x100_0000 + (s[i + 1] as int) * 0x1_0000 + (s[i + 2] as int) * 256 + (
    s[i + 3] as int)
}

/// The 8 header bytes: version, flags, type, a reserved zero byte, and the
/// big-endian length.
pub open spec fn header_bytes(version: u8, flags: u8, frame_type: FrameType, length: u32) -> Seq<
    u8,
> {
    seq![version, flags, frame_type_byte(frame_type), 0u8] + be_u32_bytes(length)
}

/// The wire form of a frame: its header followed by its payload. The
/// header carries the `length` field as it stands, whatever the payload's length.
pub open spec fn encode_spec(f: FrameView) -> Seq<u8> {
    header_bytes(f.version, f.flags, f.frame_type, f.length) + f.payload
}

/// What decoding makes of the bytes at the front of a buffer.
pub enum DecodeOutcome {
    /// Fewer than 8 bytes: no header yet. Nothing is consumed.
    TooShort,
    /// The version byte is not `VERSION`. Nothing is consumed.
    BadVersion(u8),
    /// The header announces more payload than the buffer holds. Nothing is consumed.
    Incomplete { have: nat, need: nat },
    /// The checksum flag is set but the payload has no valid CRC32 at its end.
    /// The whole frame (`consumed` bytes) is consumed.
    ChecksumMismatch { consumed: nat },
    /// A frame; `consumed` bytes (header and payload) are consumed.
    Decoded { frame: FrameView, consumed: nat },
}

/// Decoding of the front of `s`, as `Frame::decode` does it.
pub open spec fn decode_spec(s: Seq<u8>) -> DecodeOutcome {
    if s.len() < 8 {
        DecodeOutcome::TooShort
    } else if s[0] != VERSION {
        DecodeOutcome::BadVersion(s[0])
    } else {
        let length = be_u32_at_spec(s, 4);
        let total = 8 + length;
        if s.len() < total {
            DecodeOutcome::Incomplete { have: s.len(), need: total as nat }
        } else {
            let payload = s.subrange(8, total);
            let flags = s[1];
            let frame_type = frame_type_from_byte(s[2]);
            if flags & flags::HAS_CHECKSUM != 0 {
                if length < 4 {
                    DecodeOutcome::ChecksumMismatch { consumed: total as nat }
                } else {
                    let data = payload.subrange(0, length - 4);
                    if be_u32_at_spec(payload, length - 4) != crc32_of(data) {
                        DecodeOutcome::ChecksumMismatch { consumed: total as nat }
                    } else {
                        DecodeOutcome::Decoded {
                            frame: FrameView {
                                version: s[0],
                                flags,
                                frame_type,
                                length: (length - 4) as u32,
                                payload: data,
                            },
                            consumed: total as nat,
                        }
                    }
                }
            } else {
                DecodeOutcome::Decoded {
                    frame: FrameView {
                        version: s[0],
                        flags,
                        frame_type,
                        length: length as u32,
                        payload,
                    },
                    consumed: total as nat,
                }
            }
        }
    }
}

/// `res` and the buffer contents `after` are what decoding `before` gives:
/// the error of each failing outcome with the buffer as the outcome says,
/// or the decoded frame with its bytes consumed.
pub open spec fn decode_result_matches(
    outcome: DecodeOutcome,
    res: Result<Frame>,
    before: Seq<u8>,
    after: Seq<u8>,
) -> bool {
    match outcome {
        DecodeOutcome::TooShort => {
            &&& after == before
            &&& res matches Err(FmpError::Parse(m)) && m@ == too_short_message()
        },
        DecodeOutcome::BadVersion(v) => {
            &&& after == before
            &&& res matches Err(FmpError::UnsupportedVersion(w)) && w == v
        },
        DecodeOutcome::Incomplete { have, need } => {
            &&& after == before
            &&& res matches Err(FmpError::Parse(m)) && m@ == incomplete_message(have, need)
        },
        DecodeOutcome::ChecksumMismatch { consumed } => {
            &&& after == before.skip(consumed as int)
            &&& res matches Err(FmpError::ChecksumMismatch)
        },
        DecodeOutcome::Decoded { frame, consumed } => {
            &&& after == before.skip(consumed as int)
            &&& res matches Ok(f) && f@ == frame
        },
    }
}

/// The big-endian `u32` stored in `s[i..i + 4]`.
pub(crate) fn be_u32_at(s: &[u8], i: usize) -> (v: u32)
    requires
        i + 4 <= s@.len(),
    ensures
        v == be_u32_at_spec(s@, i as int),
{
    (s[i] as u32) * 0x100_0000 + (s[i + 1] as u32) * 0x1_0000 + (s[i + 2] as u32) * 256 + (s[i
        + 3] as u32)
}

/// The 8-byte big-endian payload of a timestamp (PING and PONG frames).
pub fn timestamp_payload(timestamp_ms: u64) -> (p: Bytes)
    ensures
        bytes_view(p) == be_u64_bytes(timestamp_ms),
{
    let n = timestamp_ms;
    let v: Vec<u8> = vec![
        (n / 0x100_0000_0000_0000) as u8,
        ((n / 0x1_0000_0000_0000) % 256) as u8,
        ((n / 0x100_0000_0000) % 256) as u8,
        ((n / 0x1_0000_0000) % 256) as u8,
        ((n / 0x100_0000) % 256) as u8,
        ((n / 0x1_0000) % 256) as u8,
        ((n / 256) % 256) as u8,
        (n % 256) as u8,
    ];
    let p = bytes_from_vec(v);
    assert(bytes_view(p) =~= be_u64_bytes(timestamp_ms));
    p
}

/// `SystemTime::now().duration_since(UNIX_EPOCH)` in milliseconds (cut to
/// 64 bits), or `None` when the system clock stands before 1970. The clock
/// is read: nothing is stated of the value.
#[verifier::external_body]
fn unix_time_millis() -> Option<u64> {
    match std::time::SystemTime::now().duration_since(std::time::UNIX_EPOCH) {
        Ok(d) => Some(d.as_millis() as u64),
        Err(_) => None,
    }
}

impl Frame {
    /// A frame of the current version, with no flags, of the given type
    /// and payload.
    fn with_payload(frame_type: FrameType, payload: Bytes) -> (f: Frame)
        ensures
            f@ == plain_frame(frame_type, bytes_view(payload)),
    {
        let len = bytes_as_slice(&payload).len();
        Frame { version: VERSION, flags: 0, frame_type, length: len as u32, payload }
    }

    /// A payload of a big-endian `u16` code followed by the UTF-8 bytes of a text.
    fn code_and_text(code: u16, text: &str) -> (p: Bytes)
        requires
            text.spec_bytes().len() + 2 <= max_buffer_len(),
        ensures
            bytes_view(p) == be_u16_bytes(code) + text.spec_bytes(),
    {
        let text_bytes = text.as_bytes();
        let mut payload = bytes_mut_with_capacity(2 + text_bytes.len());
        bytes_mut_put_u16(&mut payload, code);
        bytes_mut_put_slice(&mut payload, text_bytes);
        bytes_mut_freeze(payload)
    }

    /// Create a new DATA frame.
    pub fn data(payload: Bytes) -> (f: Frame)
        ensures
            f@ == plain_frame(FrameType::Data, bytes_view(payload)),
    {
        Self::with_payload(FrameType::Data, payload)
    }

    /// Create a PING frame (optionally with 8-byte timestamp).
    pub fn ping(timestamp_ms: Option<u64>) -> (f: Frame)
        ensures
            f@ == plain_frame(
                FrameType::Ping,
                match timestamp_ms {
                    Some(ts) => be_u64_bytes(ts),
                    None => Seq::<u8>::empty(),
                },
            ),
    {
        let payload = match timestamp_ms {
            Some(ts) => timestamp_payload(ts),
            None => bytes_empty(),
        };
        Self::with_payload(FrameType::Ping, payload)
    }

    /// Create a PONG frame that carries a clock reading: `now` milliseconds
    /// since the Unix epoch, 8 bytes big-endian; no reading (a clock set
    /// before 1970) counts as 0.
    pub fn pong_at(now: Option<u64>) -> (f: Frame)
        ensures
            f@ == pong_clock_frame(now),
    {
        let ms = match now {
            Some(ms) => ms,
            None => 0,
        };
        Self::with_payload(FrameType::Pong, timestamp_payload(ms))
    }

    /// Create a PONG frame: it echoes the given payload, or else carries the
    /// current time as `pong_at` does with a reading of the system clock.
    pub fn pong(echo_payload: Option<Bytes>) -> (f: Frame)
        ensures
            match echo_payload {
                Some(p) => f@ == plain_frame(FrameType::Pong, bytes_view(p)),
                None => exists|now: Option<u64>| f@ == pong_clock_frame(now),
            },
    {
        match echo_payload {
            Some(p) => Self::with_payload(FrameType::Pong, p),
            None => {
                let now = unix_time_millis();
                let f = Self::pong_at(now);
                assert(f@ == pong_clock_frame(now));
                f
            },
        }
    }

    /// Create a CLOSE frame with a reason code and a reason text.
    pub fn close(reason_code: u16, reason: &str) -> (f: Frame)
        requires
            reason.spec_bytes().len() + 2 <= max_buffer_len(),
        ensures
            f@ == plain_frame(FrameType::Close, be_u16_bytes(reason_code) + reason.spec_bytes()),
    {
        Self::with_payload(FrameType::Close, Self::code_and_text(reason_code, reason))
    }

    /// Create an ERROR frame with an error code and a message.
    pub fn error(code: u16, message: &str) -> (f: Frame)
        requires
            message.spec_bytes().len() + 2 <= max_buffer_len(),
        ensures
            f@ == plain_frame(FrameType::Error, be_u16_bytes(code) + message.spec_bytes()),
    {
        Self::with_payload(FrameType::Error, Self::code_and_text(code, message))
    }

    /// The number of payload bytes.
    pub fn payload_len(&self) -> (n: usize)
        ensures
            n == bytes_view(self.payload).len(),
    {
        bytes_as_slice(&self.payload).len()
    }

    /// Encode the frame to wire format (header + payload).
    /// Returns the complete on-wire bytes.
    pub fn encode(&self) -> (wire: Bytes)
        requires
            bytes_view(self.payload).len() + 8 <= max_buffer_len(),
        ensures
            bytes_view(wire) == encode_spec(self@),
    {
        let payload = bytes_as_slice(&self.payload);
        let mut buf = bytes_mut_with_capacity(8 + payload.len());
        bytes_mut_put_u8(&mut buf, self.version);
        bytes_mut_put_u8(&mut buf, self.flags);
        bytes_mut_put_u8(&mut buf, u8::from(self.frame_type));
        bytes_mut_put_u8(&mut buf, 0);  // reserved
        bytes_mut_put_u32(&mut buf, self.length);
        bytes_mut_put_slice(&mut buf, payload);
        let wire = bytes_mut_freeze(buf);
        assert(bytes_view(wire) =~= encode_spec(self@));
        wire
    }

    /// Decode a frame from the front of a buffer.
    ///
    /// On success it consumes exactly the header and the `length` payload
    /// bytes. When the checksum flag is set, the last four payload bytes
    /// must be the big-endian CRC32 of the rest; the frame then holds the
    /// payload without them (a mismatch still consumes the frame).
    pub fn decode(buf: &mut BytesMut) -> (res: Result<Frame>)
        ensures
            decode_result_matches(
                decode_spec(bytes_mut_view(*old(buf))),
                res,
                bytes_mut_view(*old(buf)),
                bytes_mut_view(*final(buf)),
            ),
    {
        let ghost before = bytes_mut_view(*buf);
        let s = bytes_mut_as_slice(buf);
        let have = s.len();
        if have < 8 {
            return Err(FmpError::Parse("buffer too short for header".to_owned()));
        }
        let version = s[0];
        if version != VERSION {
            return Err(FmpError::UnsupportedVersion(version));
        }
        let flags = s[1];
        let frame_type = FrameType::from(s[2]);
        let length = be_u32_at(s, 4);

        // The HAS_EXTENSIONS bit is left to a higher layer.
        if have - 8 < length as usize {
            return Err(FmpError::Parse(incomplete_frame_message(have, 8 + length as u64)));
        }
        bytes_mut_advance(buf, 8);
        let payload = bytes_mut_freeze(bytes_mut_split_to(buf, length as usize));
        proof {
            assert(before.skip(8).skip(length as int) =~= before.skip(8 + length));
            assert(before.skip(8).take(length as int) =~= before.subrange(8, 8 + length));
        }

        if flags & flags::HAS_CHECKSUM != 0 {
            let p = bytes_as_slice(&payload);
            let plen = p.len();
            if plen < 4 {
                return Err(FmpError::ChecksumMismatch);
            }
            let (data, crc_bytes) = p.split_at(plen - 4);
            let received = be_u32_at(crc_bytes, 0);
            let computed = crc32(data);
            if received != computed {
                return Err(FmpError::ChecksumMismatch);
            }
            // The frame keeps the payload without its trailing CRC.
            let clean_payload = bytes_copy_from_slice(data);
            let clean_len = bytes_as_slice(&clean_payload).len();
            return Ok(
                Frame {
                    version,
                    flags,
                    frame_type,
                    length: clean_len as u32,
                    payload: clean_payload,
                },
            );
        }
        Ok(Frame { version, flags, frame_type, length, payload })
    }
}

} // verus!
