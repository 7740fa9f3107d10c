//! Framed streams: the receive decisions of a framed message stream.
//!
//! A `FramedStream` holds a reader, a writer, the bytes received so far and
//! its limits. The transport work (reading into the buffer, writing wire
//! bytes) belongs to the caller; what this module decides is, for the bytes
//! received so far, whether a frame is complete, whether the stream must
//! fail, or whether more bytes are needed.

use bytes::BytesMut;
use vstd::prelude::*;

use crate::buffers::{
    bytes_mut_as_slice, bytes_mut_extend_from_slice, bytes_mut_view, bytes_mut_with_capacity,
    max_buffer_len,
};
use crate::error::{FmpError, Result};
use crate::frame::{
    be_u32_at, be_u32_at_spec, decode_result_matches, decode_spec, flags, DecodeOutcome, Frame,
    DEFAULT_MAX_FRAME_SIZE, VERSION,
};
use crate::text::{unknown_type_message, unknown_type_message_string};

verus! {

/// The capacity that a new stream reserves for received bytes.
pub const READ_BUFFER_CAPACITY: usize = 4096;

/// What a receive step makes of the bytes received so far.
pub enum ReceiveOutcome {
    /// No complete frame yet: more bytes must be read. Nothing is consumed.
    Wait,
    /// The header announces a payload above the configured maximum. Nothing is consumed.
    TooLarge { length: u32 },
    /// Strict mode: the header sets a flag bit that no flag defines. Nothing is consumed.
    UndefinedFlags,
    /// Strict mode: the header's type byte names no known frame type. Nothing is consumed.
    UnknownType { byte: u8 },
    /// A complete frame is there (or the version is wrong): the result of decoding it.
    Deliver(DecodeOutcome),
}

/// A receive step over the bytes received so far. As soon as a whole header
/// is there it validates, in this order, the version, the announced length
/// against the limit, and in strict mode the flags and the type; then it
/// waits for the whole frame and decodes it.
pub open spec fn receive_spec(s: Seq<u8>, max: usize, strict: bool) -> ReceiveOutcome {
    if s.len() < 8 {
        ReceiveOutcome::Wait
    } else if s[0] != VERSION {
        ReceiveOutcome::Deliver(decode_spec(s))
    } else if be_u32_at_spec(s, 4) > max {
        ReceiveOutcome::TooLarge { length: be_u32_at_spec(s, 4) as u32 }
    } else if strict && s[1] & !flags::DEFINED != 0 {
        ReceiveOutcome::UndefinedFlags
    } else if strict && s[2] > 6 {
        ReceiveOutcome::UnknownType { byte: s[2] }
    } else if s.len() < 8 + be_u32_at_spec(s, 4) {
        ReceiveOutcome::Wait
    } else {
        ReceiveOutcome::Deliver(decode_spec(s))
    }
}

/// The bytes left buffered after a receive step: a delivered frame, or a
/// frame whose checksum failed, is consumed; every other outcome consumes nothing.
pub open spec fn step_rest(outcome: ReceiveOutcome, s: Seq<u8>) -> Seq<u8> {
    match outcome {
        ReceiveOutcome::Deliver(DecodeOutcome::Decoded { consumed, .. }) => s.skip(consumed as int),
        ReceiveOutcome::Deliver(DecodeOutcome::ChecksumMismatch { consumed }) => s.skip(
            consumed as int,
        ),
        _ => s,
    }
}

/// `res` and the buffer contents `after` are what the receive outcome says:
/// `None` while waiting, the header error for a refused header, or the
/// decoding result; the buffer keeps `step_rest` of what it held.
pub open spec fn receive_result_matches(
    outcome: ReceiveOutcome,
    res: Option<Result<Frame>>,
    max: usize,
    before: Seq<u8>,
    after: Seq<u8>,
) -> bool {
    &&& after == step_rest(outcome, before)
    &&& match outcome {
        ReceiveOutcome::Wait => res is None,
        ReceiveOutcome::TooLarge { length } => res matches Some(
            Err(FmpError::FrameTooLarge { length: l, max: m }),
        ) && l == length && m == max,
        ReceiveOutcome::UndefinedFlags => res matches Some(Err(FmpError::InvalidFlags)),
        ReceiveOutcome::UnknownType { byte } => res matches Some(
            Err(FmpError::ProtocolViolation(msg)),
        ) && msg@ == unknown_type_message(byte as nat),
        ReceiveOutcome::Deliver(o) => res matches Some(r) && decode_result_matches(
            o,
            r,
            before,
            after,
        ),
    }
}

/// One receive step over `buf`, shared by streams and read halves.
fn receive_step(buf: &mut BytesMut, max: usize, strict: bool) -> (res: Option<Result<Frame>>)
    ensures
        receive_result_matches(
            receive_spec(bytes_mut_view(*old(buf)), max, strict),
            res,
            max,
            bytes_mut_view(*old(buf)),
            bytes_mut_view(*final(buf)),
        ),
{
    let s = bytes_mut_as_slice(buf);
    let have = s.len();
    if have >= 8 {
        // Peek at the header without consuming it: validate early.
        let version = s[0];
        if version != VERSION {
            return Some(Err(FmpError::UnsupportedVersion(version)));
        }
        let length = be_u32_at(s, 4) as usize;
        if length > max {
            return Some(Err(FmpError::FrameTooLarge { length: length as u32, max }));
        }
        if strict {
            if s[1] & !flags::DEFINED != 0 {
                return Some(Err(FmpError::InvalidFlags));
            }
            if s[2] > 6 {
                return Some(Err(FmpError::ProtocolViolation(unknown_type_message_string(s[2]))));
            }
        }
        if have - 8 >= length {
            // A complete frame: decode it (this consumes it from the buffer).
            return Some(Frame::decode(buf));
        }
    }
    None
}

/// Appends the bytes of one read to `buf`; a read of no bytes means the
/// peer closed the connection.
fn take_read(buf: &mut BytesMut, data: &[u8]) -> (res: Result<()>)
    requires
        bytes_mut_view(*old(buf)).len() + data@.len() <= max_buffer_len(),
    ensures
        data@.len() == 0 ==> (res matches Err(FmpError::UnexpectedClose)) && bytes_mut_view(
            *final(buf),
        ) == bytes_mut_view(*old(buf)),
        data@.len() > 0 ==> res is Ok && bytes_mut_view(*final(buf)) == bytes_mut_view(*old(buf))
            + data@,
{
    if data.len() == 0 {
        return Err(FmpError::UnexpectedClose);
    }
    bytes_mut_extend_from_slice(buf, data);
    Ok(())
}

/// A bidirectional framed message stream over a reader and a writer.
pub struct FramedStream<R, W> {
    reader: R,
    writer: W,
    read_buf: BytesMut,
    max_frame_size: usize,
    strict: bool,  // if true, unknown flags/types are hard errors
}

impl<R, W> FramedStream<R, W> {
    /// The bytes received and not yet consumed.
    pub closed spec fn buffered(&self) -> Seq<u8> {
        bytes_mut_view(self.read_buf)
    }

    /// The largest payload that a frame may announce.
    pub closed spec fn frame_size_limit(&self) -> usize {
        self.max_frame_size
    }

    /// Whether strict mode is on.
    pub closed spec fn strict_mode(&self) -> bool {
        self.strict
    }

    /// The reader.
    pub closed spec fn reader_value(&self) -> R {
        self.reader
    }

    /// The writer.
    pub closed spec fn writer_value(&self) -> W {
        self.writer
    }

    /// Create a new framed stream with default limits.
    pub fn new(reader: R, writer: W) -> (s: Self)
        ensures
            s.buffered() == Seq::<u8>::empty(),
            s.frame_size_limit() == DEFAULT_MAX_FRAME_SIZE,
            !s.strict_mode(),
            s.reader_value() == reader,
            s.writer_value() == writer,
    {
        FramedStream {
            reader,
            writer,
            read_buf: bytes_mut_with_capacity(READ_BUFFER_CAPACITY),
            max_frame_size: DEFAULT_MAX_FRAME_SIZE,
            strict: false,
        }
    }

    /// Set maximum allowed frame payload size (DoS protection).
    pub fn with_max_frame_size(self, max: usize) -> (s: Self)
        ensures
            s.frame_size_limit() == max,
            s.buffered() == self.buffered(),
            s.strict_mode() == self.strict_mode(),
            s.reader_value() == self.reader_value(),
            s.writer_value() == self.writer_value(),
    {
        let mut s = self;
        s.max_frame_size = max;
        s
    }

    /// Enable strict mode (unknown flags or types become hard errors).
    pub fn strict(self, strict: bool) -> (s: Self)
        ensures
            s.strict_mode() == strict,
            s.buffered() == self.buffered(),
            s.frame_size_limit() == self.frame_size_limit(),
            s.reader_value() == self.reader_value(),
            s.writer_value() == self.writer_value(),
    {
        let mut s = self;
        s.strict = strict;
        s
    }

    /// The number of bytes received and not yet consumed.
    pub fn buffered_len(&self) -> (n: usize)
        ensures
            n == self.buffered().len(),
    {
        bytes_mut_as_slice(&self.read_buf).len()
    }

    /// One step of receiving: with a whole header buffered, a wrong version,
    /// a payload above the limit, or (in strict mode) an undefined flag bit
    /// or an unknown type fails at once; with a whole frame buffered, that
    /// frame is decoded and consumed; otherwise `None` says that more bytes
    /// must be read.
    pub fn poll_receive(&mut self) -> (res: Option<Result<Frame>>)
        ensures
            receive_result_matches(
                receive_spec(
                    old(self).buffered(),
                    old(self).frame_size_limit(),
                    old(self).strict_mode(),
                ),
                res,
                old(self).frame_size_limit(),
                old(self).buffered(),
                final(self).buffered(),
            ),
            final(self).frame_size_limit() == old(self).frame_size_limit(),
            final(self).strict_mode() == old(self).strict_mode(),
            final(self).reader_value() == old(self).reader_value(),
            final(self).writer_value() == old(self).writer_value(),
    {
        receive_step(&mut self.read_buf, self.max_frame_size, self.strict)
    }

    /// Takes the bytes of one read from the reader. A read of no bytes
    /// means that the peer closed the connection in the middle of a frame.
    pub fn buffer_received(&mut self, data: &[u8]) -> (res: Result<()>)
        requires
            old(self).buffered().len() + data@.len() <= max_buffer_len(),
        ensures
            data@.len() == 0 ==> (res matches Err(FmpError::UnexpectedClose)) && final(self).buffered() == old(self).buffered(),
            data@.len() > 0 ==> res is Ok && final(self).buffered() == old(self).buffered()
                + data@,
            final(self).frame_size_limit() == old(self).frame_size_limit(),
            final(self).strict_mode() == old(self).strict_mode(),
            final(self).reader_value() == old(self).reader_value(),
            final(self).writer_value() == old(self).writer_value(),
    {
        take_read(&mut self.read_buf, data)
    }

    /// The reader, to read from.
    pub fn reader_mut(&mut self) -> (r: &mut R)
        ensures
            *r == old(self).reader_value(),
            final(self).reader_value() == *final(r),
            final(self).buffered() == old(self).buffered(),
            final(self).frame_size_limit() == old(self).frame_size_limit(),
            final(self).strict_mode() == old(self).strict_mode(),
            final(self).writer_value() == old(self).writer_value(),
    {
        &mut self.reader
    }

    /// The writer, to write to.
    pub fn writer_mut(&mut self) -> (w: &mut W)
        ensures
            *w == old(self).writer_value(),
            final(self).writer_value() == *final(w),
            final(self).buffered() == old(self).buffered(),
            final(self).frame_size_limit() == old(self).frame_size_limit(),
            final(self).strict_mode() == old(self).strict_mode(),
            final(self).reader_value() == old(self).reader_value(),
    {
        &mut self.writer
    }

    /// Split into separate read and write halves (useful for concurrent send/receive).
    pub fn split(self) -> (halves: (FramedRead<R>, FramedWrite<W>))
        ensures
            halves.0.buffered() == self.buffered(),
            halves.0.frame_size_limit() == self.frame_size_limit(),
            halves.0.strict_mode() == self.strict_mode(),
            halves.0.reader_value() == self.reader_value(),
            halves.1.writer_value() == self.writer_value(),
    {
        let FramedStream { reader, writer, read_buf, max_frame_size, strict } = self;
        (FramedRead { reader, read_buf, max_frame_size, strict }, FramedWrite { writer })
    }
}

/// Read half (after split).
pub struct FramedRead<R> {
    reader: R,
    read_buf: BytesMut,
    max_frame_size: usize,
    strict: bool,
}

impl<R> FramedRead<R> {
    /// The bytes received and not yet consumed.
    pub closed spec fn buffered(&self) -> Seq<u8> {
        bytes_mut_view(self.read_buf)
    }

    /// The largest payload that a frame may announce.
    pub closed spec fn frame_size_limit(&self) -> usize {
        self.max_frame_size
    }

    /// Whether strict mode is on.
    pub closed spec fn strict_mode(&self) -> bool {
        self.strict
    }

    /// The reader.
    pub closed spec fn reader_value(&self) -> R {
        self.reader
    }

    /// The number of bytes received and not yet consumed.
    pub fn buffered_len(&self) -> (n: usize)
        ensures
            n == self.buffered().len(),
    {
        bytes_mut_as_slice(&self.read_buf).len()
    }

    /// One step of receiving, as the full stream does it: with a whole header buffered, a wrong version,
    /// a payload above the limit, or (in strict mode) an undefined flag bit
    /// or an unknown type fails at once; with a whole frame buffered, that
    /// frame is decoded and consumed; otherwise `None` says that more bytes
    /// must be read.
    pub fn poll_receive(&mut self) -> (res: Option<Result<Frame>>)
        ensures
            receive_result_matches(
                receive_spec(
                    old(self).buffered(),
                    old(self).frame_size_limit(),
                    old(self).strict_mode(),
                ),
                res,
                old(self).frame_size_limit(),
                old(self).buffered(),
                final(self).buffered(),
            ),
            final(self).frame_size_limit() == old(self).frame_size_limit(),
            final(self).strict_mode() == old(self).strict_mode(),
            final(self).reader_value() == old(self).reader_value(),
    {
        receive_step(&mut self.read_buf, self.max_frame_size, self.strict)
    }

    /// Takes the bytes of one read from the reader. A read of no bytes
    /// means that the peer closed the connection in the middle of a frame.
    pub fn buffer_received(&mut self, data: &[u8]) -> (res: Result<()>)
        requires
            old(self).buffered().len() + data@.len() <= max_buffer_len(),
        ensures
            data@.len() == 0 ==> (res matches Err(FmpError::UnexpectedClose)) && final(self).buffered() == old(self).buffered(),
            data@.len() > 0 ==> res is Ok && final(self).buffered() == old(self).buffered()
                + data@,
            final(self).frame_size_limit() == old(self).frame_size_limit(),
            final(self).strict_mode() == old(self).strict_mode(),
            final(self).reader_value() == old(self).reader_value(),
    {
        take_read(&mut self.read_buf, data)
    }

    /// The reader, to read from.
    pub fn reader_mut(&mut self) -> (r: &mut R)
        ensures
            *r == old(self).reader_value(),
            final(self).reader_value() == *final(r),
            final(self).buffered() == old(self).buffered(),
            final(self).frame_size_limit() == old(self).frame_size_limit(),
            final(self).strict_mode() == old(self).strict_mode(),
    {
        &mut self.reader
    }
}

/// Write half (after split).
pub struct FramedWrite<W> {
    writer: W,
}

impl<W> FramedWrite<W> {
    /// The writer.
    pub closed spec fn writer_value(&self) -> W {
        self.writer
    }

    /// The writer, to write to.
    pub fn writer_mut(&mut self) -> (w: &mut W)
        ensures
            *w == old(self).writer_value(),
            final(self).writer_value() == *final(w),
    {
        &mut self.writer
    }
}

} // verus!
