//! What holds of the codec as a whole: conversions that undo each other,
//! encoding followed by decoding, and the checks that decoding makes.

use vstd::prelude::*;

use crate::buffers::{be_u16_bytes, be_u32_bytes};
use crate::checksum::crc32_of;
use crate::frame::flags::{DEFINED, HAS_CHECKSUM};
use crate::framed::{receive_spec, step_rest, ReceiveOutcome, READ_BUFFER_CAPACITY};
use crate::frame::{
    decode_spec, encode_spec, be_u32_at_spec, frame_type_byte, frame_type_from_byte,
    be_u64_bytes, header_bytes, plain_frame, pong_clock_frame, DecodeOutcome, FrameType,
    FrameView, VERSION,
};
use crate::text::{decimal, digit_char};

verus! {

/// Reading back the big-endian bytes of a `u32` gives the number.
pub proof fn lemma_be_u32_roundtrip(n: u32)
    ensures
        be_u32_at_spec(be_u32_bytes(n), 0) == n,
{
    let b = be_u32_bytes(n);
    assert(b[0] == n / 0x100_0000);
    assert(b[1] == (n / 0x1_0000) % 256);
    assert(b[2] == (n / 256) % 256);
    assert(b[3] == n % 256);
    assert((n / 0x100_0000) * 0x100_0000 + ((n / 0x1_0000) % 256) * 0x1_0000 + ((n / 256) % 256)
        * 256 + n % 256 == n) by (nonlinear_arith);
}

/// Every frame type survives the trip through its wire byte.
pub proof fn lemma_frame_type_roundtrip(t: FrameType)
    ensures
        frame_type_from_byte(frame_type_byte(t)) == t,
{
}

/// The wire bytes of the known frame types (0 to 6) survive the trip
/// through `FrameType`; every other byte reads as `Data`.
pub proof fn lemma_frame_type_bytes(v: u8)
    ensures
        v <= 6 ==> frame_type_byte(frame_type_from_byte(v)) == v,
        v > 6 ==> frame_type_from_byte(v) == FrameType::Data,
{
}

/// The wire form of a frame is its 8-byte header followed by its payload.
pub proof fn lemma_encode_length(f: FrameView)
    ensures
        encode_spec(f).len() == 8 + f.payload.len(),
        encode_spec(f).subrange(8, encode_spec(f).len() as int) == f.payload,
{
    assert(encode_spec(f).subrange(8, encode_spec(f).len() as int) =~= f.payload);
}

/// Decoding the header of `encode_spec(f) + rest` finds `f`'s header fields.
proof fn lemma_decode_header(f: FrameView, rest: Seq<u8>)
    ensures
        ({
            let s = encode_spec(f) + rest;
            &&& s.len() == 8 + f.payload.len() + rest.len()
            &&& s[0] == f.version
            &&& s[1] == f.flags
            &&& frame_type_from_byte(s[2]) == f.frame_type
            &&& be_u32_at_spec(s, 4) == f.length
            &&& s.subrange(8, 8 + f.payload.len() as int) == f.payload
            &&& s.skip(8 + f.payload.len() as int) == rest
        }),
{
    let s = encode_spec(f) + rest;
    let h = header_bytes(f.version, f.flags, f.frame_type, f.length);
    lemma_be_u32_roundtrip(f.length);
    lemma_frame_type_roundtrip(f.frame_type);
    assert(s[4] == be_u32_bytes(f.length)[0]);
    assert(s[5] == be_u32_bytes(f.length)[1]);
    assert(s[6] == be_u32_bytes(f.length)[2]);
    assert(s[7] == be_u32_bytes(f.length)[3]);
    assert(s.subrange(8, 8 + f.payload.len() as int) =~= f.payload);
    assert(s.skip(8 + f.payload.len() as int) =~= rest);
}

/// A frame of the current version without the checksum flag, whose
/// `length` field is its payload's length, decodes back to itself from the
/// front of any buffer that starts with its wire form, consuming exactly
/// that wire form.
pub proof fn lemma_decode_encode_roundtrip(f: FrameView, rest: Seq<u8>)
    requires
        f.version == VERSION,
        f.length == f.payload.len(),
        f.flags & HAS_CHECKSUM == 0,
    ensures
        decode_spec(encode_spec(f) + rest) == (DecodeOutcome::Decoded {
            frame: f,
            consumed: 8 + f.payload.len(),
        }),
{
    lemma_decode_header(f, rest);
}

/// Every DATA frame made from a payload of at most `u32::MAX` bytes decodes
/// back to itself, whatever follows it in the buffer.
pub proof fn lemma_data_frame_roundtrip(payload: Seq<u8>, rest: Seq<u8>)
    requires
        payload.len() <= u32::MAX,
    ensures
        decode_spec(encode_spec(plain_frame(FrameType::Data, payload)) + rest) == (
        DecodeOutcome::Decoded {
            frame: plain_frame(FrameType::Data, payload),
            consumed: 8 + payload.len(),
        }),
{
    assert(0u8 & HAS_CHECKSUM == 0) by (bit_vector);
    lemma_decode_encode_roundtrip(plain_frame(FrameType::Data, payload), rest);
}

/// A frame with the checksum flag whose payload ends with the big-endian
/// CRC32 of the data before it decodes to a frame holding that data alone.
pub proof fn lemma_checksum_roundtrip(
    flags: u8,
    frame_type: FrameType,
    data: Seq<u8>,
    rest: Seq<u8>,
)
    requires
        flags & HAS_CHECKSUM != 0,
        data.len() + 4 <= u32::MAX,
    ensures
        ({
            let sealed = FrameView {
                version: VERSION,
                flags,
                frame_type,
                length: (data.len() + 4) as u32,
                payload: data + be_u32_bytes(crc32_of(data)),
            };
            decode_spec(encode_spec(sealed) + rest) == (DecodeOutcome::Decoded {
                frame: FrameView {
                    version: VERSION,
                    flags,
                    frame_type,
                    length: data.len() as u32,
                    payload: data,
                },
                consumed: 8 + data.len() + 4,
            })
        }),
{
    let crc = crc32_of(data);
    let sealed = FrameView {
        version: VERSION,
        flags,
        frame_type,
        length: (data.len() + 4) as u32,
        payload: data + be_u32_bytes(crc),
    };
    lemma_decode_header(sealed, rest);
    lemma_be_u32_roundtrip(crc);
    let payload = sealed.payload;
    assert(payload.subrange(0, data.len() as int) =~= data);
    assert(payload.subrange(data.len() as int, data.len() + 4 as int) =~= be_u32_bytes(crc));
    assert(payload[data.len() as int] == be_u32_bytes(crc)[0]);
    assert(payload[data.len() as int + 1] == be_u32_bytes(crc)[1]);
    assert(payload[data.len() as int + 2] == be_u32_bytes(crc)[2]);
    assert(payload[data.len() as int + 3] == be_u32_bytes(crc)[3]);
}

/// Whatever decoding accepts is of the current version, has a `length`
/// field equal to its payload's length, and consumes no more than the
/// buffer holds; whatever it consumes is a whole frame of at least 8 bytes.
pub proof fn lemma_decoded_frame_well_formed(s: Seq<u8>)
    ensures
        decode_spec(s) matches DecodeOutcome::Decoded { frame, consumed } ==> {
            &&& frame.version == VERSION
            &&& frame.length == frame.payload.len()
            &&& 8 <= consumed <= s.len()
        },
        decode_spec(s) matches DecodeOutcome::ChecksumMismatch { consumed } ==> 8 <= consumed
            <= s.len(),
{
}

/// Only the current version is accepted: a full header of any other
/// version is refused, whatever follows it.
pub proof fn lemma_version_checked(s: Seq<u8>)
    requires
        s.len() >= 8,
        s[0] != VERSION,
    ensures
        decode_spec(s) == DecodeOutcome::BadVersion(s[0]),
{
}

/// A frame with the checksum flag and fewer than 4 payload bytes can
/// never hold a CRC32: decoding it fails.
pub proof fn lemma_checksum_too_short(s: Seq<u8>)
    requires
        s.len() >= 8,
        s[0] == VERSION,
        s[1] & HAS_CHECKSUM != 0,
        be_u32_at_spec(s, 4) < 4,
        s.len() >= 8 + be_u32_at_spec(s, 4),
    ensures
        decode_spec(s) matches DecodeOutcome::ChecksumMismatch { .. },
{
}

/// A header that announces more payload than the buffer holds is never
/// decoded: decoding waits for the rest and consumes nothing.
pub proof fn lemma_truncated_frame_rejected(s: Seq<u8>)
    requires
        s.len() >= 8,
        s[0] == VERSION,
        s.len() < 8 + be_u32_at_spec(s, 4),
    ensures
        decode_spec(s) == (DecodeOutcome::Incomplete {
            have: s.len(),
            need: (8 + be_u32_at_spec(s, 4)) as nat,
        }),
{
}

/// A frame that a receiver accepts as sent: current version, `length`
/// equal to the payload's length, no checksum flag, a payload within the
/// limit, and in strict mode no undefined flag bit.
pub open spec fn sendable(f: FrameView, max: usize, strict: bool) -> bool {
    &&& f.version == VERSION
    &&& f.length == f.payload.len()
    &&& f.flags & HAS_CHECKSUM == 0
    &&& f.payload.len() <= max
    &&& strict ==> f.flags & !DEFINED == 0
}

/// The outcome of receiving a sendable frame whole.
pub open spec fn delivered(f: FrameView) -> ReceiveOutcome {
    ReceiveOutcome::Deliver(DecodeOutcome::Decoded { frame: f, consumed: 8 + f.payload.len() })
}

/// A frame sent over a stream (as `Frame::encode` writes it) is received
/// back whole, by a full stream and by a read half alike, as soon as its
/// last byte is buffered, whatever follows it.
pub proof fn lemma_receive_sent_frame(f: FrameView, rest: Seq<u8>, max: usize, strict: bool)
    requires
        sendable(f, max, strict),
    ensures
        receive_spec(encode_spec(f) + rest, max, strict) == delivered(f),
        step_rest(delivered(f), encode_spec(f) + rest) == rest,
{
    lemma_decode_header(f, rest);
    lemma_decode_encode_roundtrip(f, rest);
    assert(frame_type_byte(f.frame_type) <= 6);
}

/// Until the last byte of such a frame has arrived, receiving waits: it
/// neither fails nor consumes anything.
pub proof fn lemma_receive_waits_for_rest(f: FrameView, k: int, max: usize, strict: bool)
    requires
        sendable(f, max, strict),
        0 <= k < encode_spec(f).len(),
    ensures
        receive_spec(encode_spec(f).take(k), max, strict) == ReceiveOutcome::Wait,
{
    let e = encode_spec(f);
    lemma_decode_header(f, Seq::<u8>::empty());
    assert(e + Seq::<u8>::empty() =~= e);
    let s = e.take(k);
    if k >= 8 {
        assert(s[0] == e[0] && s[1] == e[1] && s[2] == e[2]);
        assert(s[4] == e[4] && s[5] == e[5] && s[6] == e[6] && s[7] == e[7]);
        assert(be_u32_at_spec(s, 4) == be_u32_at_spec(e, 4));
        assert(frame_type_byte(f.frame_type) <= 6);
    }
}

/// Receiving never hands out a frame whose announced payload exceeds the
/// stream's limit: such a header fails with the size error instead.
pub proof fn lemma_received_frames_within_limit(s: Seq<u8>, max: usize, strict: bool)
    ensures
        receive_spec(s, max, strict) matches ReceiveOutcome::Deliver(
            DecodeOutcome::Decoded { frame, .. },
        ) ==> frame.payload.len() <= max,
{
}

/// While receiving waits, fewer than `8 + max` bytes are buffered; so a
/// read of at most `READ_BUFFER_CAPACITY` bytes, made only while waiting,
/// never brings the buffer above `8 + max + READ_BUFFER_CAPACITY - 1`
/// bytes, and a header announcing more than `max` is refused before its
/// payload is read.
pub proof fn lemma_waiting_bounds_buffer(s: Seq<u8>, max: usize, strict: bool, incoming: nat)
    requires
        receive_spec(s, max, strict) == ReceiveOutcome::Wait,
        incoming <= READ_BUFFER_CAPACITY,
    ensures
        s.len() < 8 + max,
        s.len() + incoming < 8 + max + READ_BUFFER_CAPACITY,
{
}

/// Strict mode refuses, as soon as the header is there and before any
/// payload is read, a header that sets an undefined flag bit or names an
/// unknown frame type; without strict mode the same frame is decoded, an
/// unknown type reading as `Data`.
pub proof fn lemma_strict_mode_refuses(s: Seq<u8>, max: usize)
    requires
        s.len() >= 8,
        s[0] == VERSION,
        be_u32_at_spec(s, 4) <= max,
        s[1] & !DEFINED != 0 || s[2] > 6,
    ensures
        s[1] & !DEFINED != 0 ==> receive_spec(s, max, true) == ReceiveOutcome::UndefinedFlags,
        s[1] & !DEFINED == 0 ==> receive_spec(s, max, true) == (ReceiveOutcome::UnknownType {
            byte: s[2],
        }),
        s.len() >= 8 + be_u32_at_spec(s, 4) ==> receive_spec(s, max, false)
            == ReceiveOutcome::Deliver(decode_spec(s)),
        s[1] & HAS_CHECKSUM == 0 && s.len() >= 8 + be_u32_at_spec(s, 4) ==> (decode_spec(
            s,
        ) matches DecodeOutcome::Decoded { frame, .. } && frame.frame_type == frame_type_from_byte(
            s[2],
        )),
{
}

/// On a header with only defined flags and a known type, strict mode
/// decides exactly as the default mode does.
pub proof fn lemma_strict_mode_agrees_on_conforming_headers(s: Seq<u8>, max: usize)
    requires
        s.len() >= 8 ==> s[1] & !DEFINED == 0 && s[2] <= 6,
    ensures
        receive_spec(s, max, true) == receive_spec(s, max, false),
{
}

/// The wire form of a sequence of frames sent one after another.
pub open spec fn encode_all(fs: Seq<FrameView>) -> Seq<u8>
    decreases fs.len(),
{
    if fs.len() == 0 {
        Seq::<u8>::empty()
    } else {
        encode_spec(fs[0]) + encode_all(fs.drop_first())
    }
}

/// `k` receive steps from the bytes `s`, each on what the previous one left:
/// the outcomes in order, and the bytes left at the end.
pub open spec fn receive_steps(s: Seq<u8>, max: usize, strict: bool, k: nat) -> (Seq<
    ReceiveOutcome,
>, Seq<u8>)
    decreases k,
{
    if k == 0 {
        (Seq::<ReceiveOutcome>::empty(), s)
    } else {
        let o = receive_spec(s, max, strict);
        let (os, r) = receive_steps(step_rest(o, s), max, strict, (k - 1) as nat);
        (seq![o] + os, r)
    }
}

/// Frames sent one after another are received in the same order, each equal
/// to the frame sent, with each step leaving exactly the frames after it;
/// once all are received, an empty buffer waits (and a read of no bytes then
/// is the unexpected close).
pub proof fn lemma_receive_sent_frames_in_order(
    fs: Seq<FrameView>,
    rest: Seq<u8>,
    max: usize,
    strict: bool,
)
    requires
        forall|i: int| 0 <= i < fs.len() ==> sendable(#[trigger] fs[i], max, strict),
    ensures
        receive_steps(encode_all(fs) + rest, max, strict, fs.len()) == (
        Seq::new(fs.len(), |i: int| delivered(fs[i])),
        rest,
        ),
        receive_spec(Seq::<u8>::empty(), max, strict) == ReceiveOutcome::Wait,
    decreases fs.len(),
{
    if fs.len() > 0 {
        let f = fs[0];
        let tail = fs.drop_first();
        assert forall|i: int| 0 <= i < tail.len() implies sendable(#[trigger] tail[i], max, strict) by {
            assert(tail[i] == fs[i + 1]);
        }
        let t = encode_all(tail) + rest;
        assert(encode_all(fs) + rest =~= encode_spec(f) + t);
        lemma_receive_sent_frame(f, t, max, strict);
        lemma_receive_sent_frames_in_order(tail, rest, max, strict);
        let (os, r) = receive_steps(t, max, strict, tail.len());
        assert(seq![delivered(f)] + os =~= Seq::new(fs.len(), |i: int| delivered(fs[i])));
    }
}

/// Receiving until no step can make progress: the outcomes in order, the
/// bytes left, and whether the stream stopped on a refusal that consumes
/// nothing (a wrong version, a size or strict-mode refusal) rather than
/// waiting for more bytes.
pub open spec fn drain(s: Seq<u8>, max: usize, strict: bool) -> (Seq<ReceiveOutcome>, Seq<u8>, bool)
    decreases s.len(),
{
    let o = receive_spec(s, max, strict);
    if o is Wait {
        (Seq::<ReceiveOutcome>::empty(), s, false)
    } else if step_rest(o, s).len() < s.len() {
        let (os, r, stopped) = drain(step_rest(o, s), max, strict);
        (seq![o] + os, r, stopped)
    } else {
        (seq![o], s, true)
    }
}

/// The outcomes of a stream that starts with the buffered bytes `buf` and
/// whose reads then deliver `chunks` one after another: before each read
/// (and after the last) it receives everything it can, and it stops at the
/// first refusal.
pub open spec fn receive_chunks(
    buf: Seq<u8>,
    chunks: Seq<Seq<u8>>,
    max: usize,
    strict: bool,
) -> Seq<ReceiveOutcome>
    decreases chunks.len(),
{
    let (os, r, stopped) = drain(buf, max, strict);
    if chunks.len() == 0 || stopped {
        os
    } else {
        os + receive_chunks(r + chunks[0], chunks.drop_first(), max, strict)
    }
}

/// Decoding the front of a buffer that holds a whole frame does not look
/// past that frame.
proof fn lemma_decode_prefix_stable(s: Seq<u8>, t: Seq<u8>)
    requires
        s.len() >= 8,
        s[0] == VERSION ==> s.len() >= 8 + be_u32_at_spec(s, 4),
    ensures
        decode_spec(s + t) == decode_spec(s),
{
    let u = s + t;
    assert(u[0] == s[0] && u[1] == s[1] && u[2] == s[2]);
    assert(u[4] == s[4] && u[5] == s[5] && u[6] == s[6] && u[7] == s[7]);
    if s[0] == VERSION {
        let total = 8 + be_u32_at_spec(s, 4);
        assert(u.subrange(8, total) =~= s.subrange(8, total));
    }
}

/// A receive step that does not wait decides the same, and leaves the same
/// bytes followed by the new ones, however many more bytes arrive first.
pub proof fn lemma_receive_prefix_stable(s: Seq<u8>, t: Seq<u8>, max: usize, strict: bool)
    requires
        !(receive_spec(s, max, strict) is Wait),
    ensures
        receive_spec(s + t, max, strict) == receive_spec(s, max, strict),
        step_rest(receive_spec(s, max, strict), s + t) == step_rest(
            receive_spec(s, max, strict),
            s,
        ) + t,
{
    let u = s + t;
    assert(u[0] == s[0] && u[1] == s[1] && u[2] == s[2]);
    assert(u[4] == s[4] && u[5] == s[5] && u[6] == s[6] && u[7] == s[7]);
    let o = receive_spec(s, max, strict);
    if o is Deliver {
        lemma_decode_prefix_stable(s, t);
        lemma_decoded_frame_well_formed(s);
        match decode_spec(s) {
            DecodeOutcome::Decoded { consumed, .. } => {
                assert(u.skip(consumed as int) =~= s.skip(consumed as int) + t);
            },
            DecodeOutcome::ChecksumMismatch { consumed } => {
                assert(u.skip(consumed as int) =~= s.skip(consumed as int) + t);
            },
            _ => {},
        }
    }
}

/// Draining `s + t`: what draining `s` gave, then (unless it stopped)
/// draining what it left followed by `t`.
proof fn lemma_drain_append(s: Seq<u8>, t: Seq<u8>, max: usize, strict: bool)
    ensures
        ({
            let (os, r, stopped) = drain(s, max, strict);
            let (os2, r2, stopped2) = drain(r + t, max, strict);
            if stopped {
                drain(s + t, max, strict).0 == os && drain(s + t, max, strict).2
            } else {
                drain(s + t, max, strict) == (os + os2, r2, stopped2)
            }
        }),
    decreases s.len(),
{
    let o = receive_spec(s, max, strict);
    if o is Wait {
        assert(Seq::<ReceiveOutcome>::empty() + drain(s + t, max, strict).0 =~= drain(
            s + t,
            max,
            strict,
        ).0);
    } else {
        lemma_receive_prefix_stable(s, t, max, strict);
        let rs = step_rest(o, s);
        if rs.len() < s.len() {
            lemma_drain_append(rs, t, max, strict);
            let (os1, r1, st1) = drain(rs, max, strict);
            let (os2, r2, st2) = drain(r1 + t, max, strict);
            assert((rs + t).len() < (s + t).len());
            if !st1 {
                assert(seq![o] + (os1 + os2) =~= (seq![o] + os1) + os2);
            }
        } else {
            assert((s + t).len() == s.len() + t.len());
        }
    }
}

/// Framing depends only on the bytes, not on how the reads cut them: a
/// stream that starts with any buffered bytes and whose reads deliver
/// `chunks` one after another yields exactly the outcomes that receiving
/// from all those bytes at once yields.
pub proof fn lemma_receive_independent_of_chunking(
    buf: Seq<u8>,
    chunks: Seq<Seq<u8>>,
    max: usize,
    strict: bool,
)
    ensures
        receive_chunks(buf, chunks, max, strict) == drain(buf + chunks.flatten(), max, strict).0,
    decreases chunks.len(),
{
    if chunks.len() == 0 {
        assert(buf + chunks.flatten() =~= buf);
    } else {
        let c = chunks[0];
        let more = chunks.drop_first();
        assert(chunks.flatten() =~= c + more.flatten());
        lemma_drain_append(buf, chunks.flatten(), max, strict);
        let (os, r, stopped) = drain(buf, max, strict);
        if !stopped {
            assert(r + chunks.flatten() =~= (r + c) + more.flatten());
            lemma_receive_independent_of_chunking(r + c, more, max, strict);
        }
    }
}

/// The number that a byte sequence spells in big-endian order (most
/// significant byte first).
pub open spec fn be_value(s: Seq<u8>) -> nat
    decreases s.len(),
{
    if s.len() == 0 {
        0
    } else {
        be_value(s.drop_last()) * 256 + s.last() as nat
    }
}

/// The number that a digit sequence spells in decimal.
pub open spec fn decimal_value(cs: Seq<char>) -> int
    decreases cs.len(),
{
    if cs.len() == 0 {
        0
    } else {
        decimal_value(cs.drop_last()) * 10 + (cs.last() as int - 48)
    }
}

/// Unfolds `be_value` over a sequence of at most 8 bytes.
proof fn lemma_be_value_unfold(s: Seq<u8>)
    requires
        1 <= s.len() <= 8,
    ensures
        be_value(s) == be_value(s.drop_last()) * 256 + s.last() as nat,
{
}

/// `be_u32_at_spec` reads the four bytes at `i` as a big-endian number.
pub proof fn lemma_be_u32_at_is_be_value(s: Seq<u8>, i: int)
    requires
        0 <= i,
        i + 4 <= s.len(),
    ensures
        be_u32_at_spec(s, i) == be_value(s.subrange(i, i + 4)),
{
    let w = s.subrange(i, i + 4);
    let w3 = w.drop_last();
    let w2 = w3.drop_last();
    let w1 = w2.drop_last();
    assert(w1.drop_last() =~= Seq::<u8>::empty());
    assert(w1 =~= seq![s[i]]);
    assert(w2 =~= seq![s[i], s[i + 1]]);
    assert(w3 =~= seq![s[i], s[i + 1], s[i + 2]]);
    assert(be_value(Seq::<u8>::empty()) == 0);
    lemma_be_value_unfold(w1);
    lemma_be_value_unfold(w2);
    lemma_be_value_unfold(w3);
    lemma_be_value_unfold(w);
}

/// The big-endian bytes of a `u16` spell the number: two bytes, most
/// significant first.
pub proof fn lemma_be_u16_roundtrip(n: u16)
    ensures
        be_u16_bytes(n).len() == 2,
        be_value(be_u16_bytes(n)) == n,
{
    let b = be_u16_bytes(n);
    assert(b.drop_last().drop_last() =~= Seq::<u8>::empty());
    assert(b.drop_last() =~= seq![b[0]]);
    assert(be_value(Seq::<u8>::empty()) == 0);
    lemma_be_value_unfold(b.drop_last());
    lemma_be_value_unfold(b);
    assert((n / 256) * 256 + n % 256 == n);
}

/// The big-endian bytes of a `u32` spell the number: four bytes, most
/// significant first.
pub proof fn lemma_be_u32_bytes_roundtrip(n: u32)
    ensures
        be_u32_bytes(n).len() == 4,
        be_value(be_u32_bytes(n)) == n,
{
    lemma_be_u32_roundtrip(n);
    lemma_be_u32_at_is_be_value(be_u32_bytes(n), 0);
    assert(be_u32_bytes(n).subrange(0, 4) =~= be_u32_bytes(n));
}

/// The big-endian bytes of a `u64` (the timestamp payload of PING and PONG
/// frames) spell the number: eight bytes, most significant first, so that
/// `u64::from_be_bytes` of the payload is the timestamp.
pub proof fn lemma_be_u64_roundtrip(n: u64)
    ensures
        be_u64_bytes(n).len() == 8,
        be_value(be_u64_bytes(n)) == n,
{
    let b = be_u64_bytes(n);
    let b7 = b.drop_last();
    let b6 = b7.drop_last();
    let b5 = b6.drop_last();
    let b4 = b5.drop_last();
    let b3 = b4.drop_last();
    let b2 = b3.drop_last();
    let b1 = b2.drop_last();
    let b0 = b1.drop_last();
    assert(b0 =~= Seq::<u8>::empty());
    assert(be_value(b0) == 0);
    assert(b1 =~= seq![b[0]]);
    assert(b2 =~= seq![b[0], b[1]]);
    assert(b3 =~= seq![b[0], b[1], b[2]]);
    assert(b4 =~= seq![b[0], b[1], b[2], b[3]]);
    assert(b5 =~= seq![b[0], b[1], b[2], b[3], b[4]]);
    assert(b6 =~= seq![b[0], b[1], b[2], b[3], b[4], b[5]]);
    assert(b7 =~= seq![b[0], b[1], b[2], b[3], b[4], b[5], b[6]]);
    lemma_be_value_unfold(b1);
    lemma_be_value_unfold(b2);
    lemma_be_value_unfold(b3);
    lemma_be_value_unfold(b4);
    lemma_be_value_unfold(b5);
    lemma_be_value_unfold(b6);
    lemma_be_value_unfold(b7);
    lemma_be_value_unfold(b);
    assert((n / 0x100_0000_0000_0000) * 0x100_0000_0000_0000 + ((n / 0x1_0000_0000_0000) % 256)
        * 0x1_0000_0000_0000 + ((n / 0x100_0000_0000) % 256) * 0x100_0000_0000 + ((n
        / 0x1_0000_0000) % 256) * 0x1_0000_0000 + ((n / 0x100_0000) % 256) * 0x100_0000 + ((n
        / 0x1_0000) % 256) * 0x1_0000 + ((n / 256) % 256) * 256 + n % 256 == n) by (bit_vector);
}

/// The wire values of the frame types: DATA 0, PING 1, PONG 2, CLOSE 3,
/// ERROR 4, HANDSHAKE 5, ACK 6.
pub proof fn lemma_frame_type_wire_values()
    ensures
        frame_type_byte(FrameType::Data) == 0,
        frame_type_byte(FrameType::Ping) == 1,
        frame_type_byte(FrameType::Pong) == 2,
        frame_type_byte(FrameType::Close) == 3,
        frame_type_byte(FrameType::Error) == 4,
        frame_type_byte(FrameType::Handshake) == 5,
        frame_type_byte(FrameType::Ack) == 6,
{
}

/// Every frame the constructors build (DATA, PING, PONG, CLOSE, ERROR) is of
/// the current version, has no flags, announces its payload's length, and,
/// for a payload of at most `u32::MAX` bytes, decodes back to itself
/// whatever follows it.
pub proof fn lemma_constructed_frames_roundtrip(
    frame_type: FrameType,
    payload: Seq<u8>,
    rest: Seq<u8>,
)
    requires
        payload.len() <= u32::MAX,
    ensures
        plain_frame(frame_type, payload).version == VERSION,
        plain_frame(frame_type, payload).flags == 0,
        plain_frame(frame_type, payload).length == payload.len(),
        plain_frame(frame_type, payload).payload == payload,
        plain_frame(frame_type, payload).frame_type == frame_type,
        decode_spec(encode_spec(plain_frame(frame_type, payload)) + rest) == (
        DecodeOutcome::Decoded {
            frame: plain_frame(frame_type, payload),
            consumed: 8 + payload.len(),
        }),
{
    assert(0u8 & HAS_CHECKSUM == 0) by (bit_vector);
    lemma_decode_encode_roundtrip(plain_frame(frame_type, payload), rest);
}

/// A PONG frame for a clock reading carries that reading, in milliseconds,
/// as its 8-byte big-endian payload (no reading counts as 0).
pub proof fn lemma_pong_carries_reading(now: Option<u64>)
    ensures
        pong_clock_frame(now).frame_type == FrameType::Pong,
        pong_clock_frame(now).payload.len() == 8,
        be_value(pong_clock_frame(now).payload) == match now {
            Some(ms) => ms,
            None => 0,
        },
{
    match now {
        Some(ms) => lemma_be_u64_roundtrip(ms),
        None => lemma_be_u64_roundtrip(0),
    }
}

/// The checksum decides: for a whole frame of the current version with the
/// checksum flag (whatever its other flags), decoding succeeds exactly when
/// the payload has at least 4 bytes and its last four, read big-endian, are
/// the CRC32 of the bytes before them; the frame then holds those bytes
/// alone, and otherwise decoding fails with `ChecksumMismatch`, consuming
/// the whole frame.
pub proof fn lemma_checksum_decides(s: Seq<u8>)
    requires
        s.len() >= 8,
        s[0] == VERSION,
        s[1] & HAS_CHECKSUM != 0,
        s.len() >= 8 + be_value(s.subrange(4, 8)),
    ensures
        ({
            let total = 8 + be_value(s.subrange(4, 8));
            let p = s.subrange(8, total as int);
            let sealed_ok = p.len() >= 4 && be_value(p.subrange(p.len() - 4, p.len() as int))
                == crc32_of(p.subrange(0, p.len() - 4));
            &&& (decode_spec(s) is Decoded) <==> sealed_ok
            &&& sealed_ok ==> decode_spec(s) == (DecodeOutcome::Decoded {
                frame: FrameView {
                    version: VERSION,
                    flags: s[1],
                    frame_type: frame_type_from_byte(s[2]),
                    length: (p.len() - 4) as u32,
                    payload: p.subrange(0, p.len() - 4),
                },
                consumed: total,
            })
            &&& !sealed_ok ==> decode_spec(s) == (DecodeOutcome::ChecksumMismatch {
                consumed: total,
            })
        }),
{
    lemma_be_u32_at_is_be_value(s, 4);
    let total = 8 + be_value(s.subrange(4, 8));
    let p = s.subrange(8, total as int);
    if p.len() >= 4 {
        lemma_be_u32_at_is_be_value(p, p.len() - 4);
    }
}

/// Once a whole frame is buffered and its header passes the early checks
/// (current version, announced length within the limit, and in strict mode
/// only defined flags and a known type), receiving delivers exactly what
/// decoding the buffer gives.
pub proof fn lemma_receive_delivers_decoding(s: Seq<u8>, max: usize, strict: bool)
    requires
        s.len() >= 8,
        s[0] == VERSION,
        be_value(s.subrange(4, 8)) <= max,
        strict ==> s[1] & !DEFINED == 0 && s[2] <= 6,
        s.len() >= 8 + be_value(s.subrange(4, 8)),
    ensures
        receive_spec(s, max, strict) == ReceiveOutcome::Deliver(decode_spec(s)),
{
    lemma_be_u32_at_is_be_value(s, 4);
}

/// A frame sealed with the checksum flag, whose payload is `data` followed
/// by the big-endian CRC32 of `data`, is received by a stream and by a read
/// half alike as the frame holding `data`, consuming exactly its wire bytes.
pub proof fn lemma_receive_sealed_frame(
    flags: u8,
    frame_type: FrameType,
    data: Seq<u8>,
    rest: Seq<u8>,
    max: usize,
    strict: bool,
)
    requires
        flags & HAS_CHECKSUM != 0,
        data.len() + 4 <= u32::MAX,
        data.len() + 4 <= max,
        strict ==> flags & !DEFINED == 0,
    ensures
        ({
            let sealed = FrameView {
                version: VERSION,
                flags,
                frame_type,
                length: (data.len() + 4) as u32,
                payload: data + be_u32_bytes(crc32_of(data)),
            };
            let o = receive_spec(encode_spec(sealed) + rest, max, strict);
            &&& o == ReceiveOutcome::Deliver(
                DecodeOutcome::Decoded {
                    frame: FrameView {
                        version: VERSION,
                        flags,
                        frame_type,
                        length: data.len() as u32,
                        payload: data,
                    },
                    consumed: 8 + data.len() + 4,
                },
            )
            &&& step_rest(o, encode_spec(sealed) + rest) == rest
        }),
{
    let sealed = FrameView {
        version: VERSION,
        flags,
        frame_type,
        length: (data.len() + 4) as u32,
        payload: data + be_u32_bytes(crc32_of(data)),
    };
    lemma_decode_header(sealed, rest);
    lemma_checksum_roundtrip(flags, frame_type, data, rest);
    assert(frame_type_byte(frame_type) <= 6);
}

/// The decimal digits of `n` spell `n`: every character is a digit `0`-`9`,
/// and the first is not `0` unless `n` is zero.
pub proof fn lemma_decimal_spells(n: nat)
    ensures
        decimal_value(decimal(n)) == n,
        decimal(n).len() >= 1,
        forall|i: int| 0 <= i < decimal(n).len() ==> 48 <= #[trigger] (decimal(n)[i] as int) <= 57,
        n >= 10 ==> decimal(n)[0] != '0',
    decreases n,
{
    let d = decimal(n);
    let c = digit_char(n % 10);
    assert(c as int == 48 + n % 10);
    if n >= 10 {
        lemma_decimal_spells(n / 10);
        assert(d.drop_last() =~= decimal(n / 10));
        assert(d.last() == c);
        assert(decimal_value(d) == decimal_value(d.drop_last()) * 10 + (d.last() as int - 48));
        assert(d[0] == decimal(n / 10)[0]);
        assert forall|i: int| 0 <= i < d.len() implies 48 <= #[trigger] (d[i] as int) <= 57 by {
            if i < d.len() - 1 {
                assert(d[i] == decimal(n / 10)[i]);
            }
        }
    } else {
        assert(d.drop_last() =~= Seq::<char>::empty());
        assert(decimal_value(Seq::<char>::empty()) == 0);
        assert(d.last() == c);
        assert(decimal_value(d) == decimal_value(d.drop_last()) * 10 + (d.last() as int - 48));
    }
}

} // verus!
