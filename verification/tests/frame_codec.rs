use bytes::{Bytes, BytesMut};
use framed_message_protocol::frame::timestamp_payload;
use framed_message_protocol::{flags, FmpError, Frame, FrameType, DEFAULT_MAX_FRAME_SIZE, VERSION};

fn header(version: u8, flags: u8, frame_type: u8, length: u32) -> Vec<u8> {
    let l = length.to_be_bytes();
    vec![version, flags, frame_type, 0, l[0], l[1], l[2], l[3]]
}

fn sample_payloads() -> Vec<Vec<u8>> {
    vec![
        vec![],
        vec![0],
        b"Hello P2P mesh!".to_vec(),
        (0..=255u8).collect(),
        (0..5000u32).map(|i| (i % 251) as u8).collect(),
    ]
}

#[test]
fn prop_roundtrip_data() {
    for payload in sample_payloads() {
        let frame = Frame::data(Bytes::from(payload));
        let encoded = frame.encode();
        let mut buf = BytesMut::from(&encoded[..]);
        let decoded = Frame::decode(&mut buf).expect("decode should succeed for valid DATA frame");
        assert_eq!(decoded, frame);
        assert!(buf.is_empty());
    }
}

#[test]
fn prop_length_invariant() {
    for payload in sample_payloads() {
        let frame = Frame::data(Bytes::from(payload));
        let encoded = frame.encode();
        let mut buf = BytesMut::from(&encoded[..]);
        let decoded = Frame::decode(&mut buf).unwrap();
        assert_eq!(decoded.length as usize, decoded.payload.len());
    }
}

#[test]
fn prop_version_check() {
    for bad_version in 0u8..=255u8 {
        if bad_version == VERSION {
            continue;
        }
        let header = [bad_version, 0, FrameType::Data as u8, 0, 0, 0, 0, 0];
        let mut buf = BytesMut::from(&header[..]);
        let result = Frame::decode(&mut buf);
        assert!(matches!(result, Err(FmpError::UnsupportedVersion(v)) if v == bad_version));
        assert_eq!(buf.len(), 8);
    }
}

#[test]
fn prop_checksum_too_short() {
    for n in 0..3usize {
        let short_payload: Vec<u8> = (0..n as u8).collect();
        let mut frame = Frame::data(Bytes::from(short_payload));
        frame.flags |= flags::HAS_CHECKSUM;
        let encoded = frame.encode();
        let mut buf = BytesMut::from(&encoded[..]);
        let result = Frame::decode(&mut buf);
        assert!(matches!(result, Err(FmpError::ChecksumMismatch)));
        // The whole frame was consumed.
        assert!(buf.is_empty());
    }
}

#[test]
fn prop_large_length_rejected() {
    for length in [16 * 1024 * 1024u32, 16 * 1024 * 1024 + 1, 1 << 30, u32::MAX - 1, u32::MAX] {
        let mut buf = BytesMut::from(&header(VERSION, 0, FrameType::Data as u8, length)[..]);
        let result = Frame::decode(&mut buf);
        assert!(result.is_err());
        assert_eq!(buf.len(), 8);
    }
}

#[test]
fn decode_incomplete_message_names_both_lengths() {
    let mut bytes = header(VERSION, 0, 0, 4);
    bytes.extend_from_slice(&[1, 2]);
    let mut buf = BytesMut::from(&bytes[..]);
    match Frame::decode(&mut buf) {
        Err(FmpError::Parse(m)) => assert_eq!(m, "incomplete frame: have 10 need 12"),
        other => panic!("unexpected {:?}", other),
    }
    assert_eq!(&buf[..], &bytes[..]);

    let mut buf = BytesMut::from(&header(VERSION, 0, 0, u32::MAX)[..]);
    match Frame::decode(&mut buf) {
        Err(FmpError::Parse(m)) => assert_eq!(m, "incomplete frame: have 8 need 4294967303"),
        other => panic!("unexpected {:?}", other),
    }
}

#[test]
fn incomplete_message_digits() {
    for (length, need) in [(0u32, "8"), (2, "10"), (92, "100"), (1000, "1008"), (u32::MAX - 8, "4294967295")] {
        let mut buf = BytesMut::from(&header(VERSION, 0, 0, length)[..]);
        match Frame::decode(&mut buf) {
            Err(FmpError::Parse(m)) => {
                if length == 0 {
                    panic!("unexpected parse error {}", m);
                }
                assert_eq!(m, format!("incomplete frame: have 8 need {}", need));
            }
            Ok(f) => assert_eq!(length, 0, "{:?}", f),
            other => panic!("unexpected {:?}", other),
        }
    }
}

#[test]
fn decode_short_header() {
    for n in 0..8usize {
        let bytes: Vec<u8> = vec![VERSION; n];
        let mut buf = BytesMut::from(&bytes[..]);
        match Frame::decode(&mut buf) {
            Err(FmpError::Parse(m)) => assert_eq!(m, "buffer too short for header"),
            other => panic!("unexpected {:?}", other),
        }
        assert_eq!(buf.len(), n);
    }
}

#[test]
fn decode_consumes_exactly_one_frame() {
    let mut bytes = header(VERSION, flags::HIGH_PRIORITY, 1, 3);
    bytes.extend_from_slice(b"abc");
    bytes.extend_from_slice(&header(VERSION, 0, 2, 0));
    bytes.extend_from_slice(b"tail");
    let mut buf = BytesMut::from(&bytes[..]);
    let first = Frame::decode(&mut buf).unwrap();
    assert_eq!(first.version, VERSION);
    assert_eq!(first.flags, flags::HIGH_PRIORITY);
    assert_eq!(first.frame_type, FrameType::Ping);
    assert_eq!(first.length, 3);
    assert_eq!(&first.payload[..], b"abc");
    let second = Frame::decode(&mut buf).unwrap();
    assert_eq!(second.frame_type, FrameType::Pong);
    assert_eq!(second.length, 0);
    assert!(second.payload.is_empty());
    assert_eq!(&buf[..], b"tail");
}

#[test]
fn decode_unknown_type_reads_as_data() {
    let mut bytes = header(VERSION, 0, 0x42, 1);
    bytes.push(9);
    let mut buf = BytesMut::from(&bytes[..]);
    let f = Frame::decode(&mut buf).unwrap();
    assert_eq!(f.frame_type, FrameType::Data);
    assert_eq!(&f.payload[..], &[9]);
}

#[test]
fn checksum_valid_is_stripped() {
    let data = b"checked payload".to_vec();
    let crc = crc32fast::hash(&data);
    let mut payload = data.clone();
    payload.extend_from_slice(&crc.to_be_bytes());
    let mut bytes = header(VERSION, flags::HAS_CHECKSUM, 0, payload.len() as u32);
    bytes.extend_from_slice(&payload);
    bytes.extend_from_slice(b"next");
    let mut buf = BytesMut::from(&bytes[..]);
    let f = Frame::decode(&mut buf).unwrap();
    assert_eq!(f.flags, flags::HAS_CHECKSUM);
    assert_eq!(f.length as usize, data.len());
    assert_eq!(&f.payload[..], &data[..]);
    assert_eq!(&buf[..], b"next");
}

#[test]
fn checksum_of_empty_data() {
    // Four payload bytes: the CRC32 of nothing, which is 0.
    let mut bytes = header(VERSION, flags::HAS_CHECKSUM, 0, 4);
    bytes.extend_from_slice(&crc32fast::hash(&[]).to_be_bytes());
    let mut buf = BytesMut::from(&bytes[..]);
    let f = Frame::decode(&mut buf).unwrap();
    assert_eq!(f.length, 0);
    assert!(f.payload.is_empty());
}

#[test]
fn checksum_mismatch_consumes_frame() {
    let data = b"checked payload".to_vec();
    let crc = crc32fast::hash(&data) ^ 1;
    let mut payload = data.clone();
    payload.extend_from_slice(&crc.to_be_bytes());
    let mut bytes = header(VERSION, flags::HAS_CHECKSUM, 0, payload.len() as u32);
    bytes.extend_from_slice(&payload);
    bytes.extend_from_slice(b"next");
    let mut buf = BytesMut::from(&bytes[..]);
    assert!(matches!(Frame::decode(&mut buf), Err(FmpError::ChecksumMismatch)));
    assert_eq!(&buf[..], b"next");
}

#[test]
fn checksum_detects_changed_data() {
    let data = b"abcd".to_vec();
    let crc = crc32fast::hash(&data);
    let mut payload = b"abce".to_vec();
    payload.extend_from_slice(&crc.to_be_bytes());
    let mut bytes = header(VERSION, flags::HAS_CHECKSUM, 0, payload.len() as u32);
    bytes.extend_from_slice(&payload);
    let mut buf = BytesMut::from(&bytes[..]);
    assert!(matches!(Frame::decode(&mut buf), Err(FmpError::ChecksumMismatch)));
}

#[test]
fn encode_exact_bytes() {
    let frame = Frame {
        version: VERSION,
        flags: flags::COMPRESSED,
        frame_type: FrameType::Ack,
        length: 0x0102_0304,
        payload: Bytes::from(vec![0xAA, 0xBB]),
    };
    let wire = frame.encode();
    assert_eq!(&wire[..], &[1, 2, 6, 0, 1, 2, 3, 4, 0xAA, 0xBB]);
}

#[test]
fn roundtrip_keeps_header_fields() {
    // The fuzzing roundtrip: any frame decodes (if at all) with its version
    // and with a length equal to its payload's.
    for (version, fl, t) in [(1u8, 0u8, 3u8), (1, 0x0E, 5), (1, 0x01, 0), (2, 0, 0)] {
        let payload = vec![7u8; 20];
        let frame = Frame {
            version,
            flags: fl,
            frame_type: FrameType::from(t),
            length: payload.len() as u32,
            payload: Bytes::from(payload),
        };
        let encoded = frame.encode();
        let mut buf = BytesMut::from(&encoded[..]);
        if let Ok(decoded) = Frame::decode(&mut buf) {
            assert_eq!(decoded.version, version);
            assert_eq!(decoded.length as usize, decoded.payload.len());
        } else {
            assert!(version != VERSION || fl & flags::HAS_CHECKSUM != 0);
        }
    }
}

#[test]
fn frame_type_conversions() {
    let all = [
        FrameType::Data,
        FrameType::Ping,
        FrameType::Pong,
        FrameType::Close,
        FrameType::Error,
        FrameType::Handshake,
        FrameType::Ack,
    ];
    for (i, t) in all.iter().enumerate() {
        assert_eq!(u8::from(*t), i as u8);
        assert_eq!(FrameType::from(i as u8), *t);
        assert_eq!(*t as u8, i as u8);
    }
    for v in 7u8..=255 {
        assert_eq!(FrameType::from(v), FrameType::Data);
    }
}

#[test]
fn constructors() {
    let d = Frame::data(Bytes::from(vec![1, 2, 3]));
    assert_eq!(d.payload_len(), 3);
    assert_eq!((d.version, d.flags, d.frame_type, d.length), (VERSION, 0, FrameType::Data, 3));

    let p = Frame::ping(Some(0x0102_0304_0506_0708));
    assert_eq!(p.frame_type, FrameType::Ping);
    assert_eq!(p.length, 8);
    assert_eq!(&p.payload[..], &[1, 2, 3, 4, 5, 6, 7, 8]);

    let p0 = Frame::ping(None);
    assert_eq!(p0.length, 0);
    assert!(p0.payload.is_empty());

    let echo = Frame::pong(Some(Bytes::from(vec![9, 9])));
    assert_eq!(echo.frame_type, FrameType::Pong);
    assert_eq!(&echo.payload[..], &[9, 9]);
    assert_eq!(echo.length, 2);

    let at = Frame::pong_at(Some(0x0102_0304_0506_0708));
    assert_eq!(at.frame_type, FrameType::Pong);
    assert_eq!(at.length, 8);
    assert_eq!(&at.payload[..], &[1, 2, 3, 4, 5, 6, 7, 8]);
    let before_epoch = Frame::pong_at(None);
    assert_eq!(&before_epoch.payload[..], &[0; 8]);

    let now = Frame::pong(None);
    assert_eq!(now.frame_type, FrameType::Pong);
    assert_eq!(now.length, 8);
    let ms = u64::from_be_bytes(now.payload[..].try_into().unwrap());
    assert!(ms > 1_600_000_000_000);

    let c = Frame::close(0x0102, "bye");
    assert_eq!(c.frame_type, FrameType::Close);
    assert_eq!(&c.payload[..], &[1, 2, b'b', b'y', b'e']);
    assert_eq!(c.length, 5);

    let e = Frame::error(500, "é");
    assert_eq!(e.frame_type, FrameType::Error);
    assert_eq!(&e.payload[..], &[1, 244, 0xC3, 0xA9]);
    assert_eq!(e.length, 4);
}

#[test]
fn timestamp_payload_is_big_endian() {
    assert_eq!(&timestamp_payload(0)[..], &[0; 8]);
    assert_eq!(&timestamp_payload(u64::MAX)[..], &[0xFF; 8]);
    assert_eq!(&timestamp_payload(0x1122_3344_5566_7788)[..], &0x1122_3344_5566_7788u64.to_be_bytes());
}

#[test]
fn constants() {
    assert_eq!(VERSION, 1);
    assert_eq!(DEFAULT_MAX_FRAME_SIZE, 16 * 1024 * 1024);
    assert_eq!(
        (flags::HAS_CHECKSUM, flags::COMPRESSED, flags::HIGH_PRIORITY, flags::HAS_EXTENSIONS),
        (1, 2, 4, 8)
    );
}
