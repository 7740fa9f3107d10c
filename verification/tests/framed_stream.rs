use bytes::Bytes;
use framed_message_protocol::{FmpError, Frame, FrameType, FramedStream, DEFAULT_MAX_FRAME_SIZE};

fn wire(frame: &Frame) -> Vec<u8> {
    frame.encode().to_vec()
}

#[test]
fn stream_waits_for_whole_frame() {
    let mut s = FramedStream::new((), ());
    assert_eq!(s.buffered_len(), 0);
    assert!(s.poll_receive().is_none());
    let bytes = wire(&Frame::data(Bytes::from(vec![5u8; 10])));
    // Byte by byte: nothing comes out until the last byte arrives.
    for (i, b) in bytes.iter().enumerate() {
        s.buffer_received(&[*b]).unwrap();
        if i + 1 < bytes.len() {
            assert!(s.poll_receive().is_none());
            assert_eq!(s.buffered_len(), i + 1);
        }
    }
    let f = s.poll_receive().unwrap().unwrap();
    assert_eq!(f.frame_type, FrameType::Data);
    assert_eq!(&f.payload[..], &[5u8; 10]);
    assert_eq!(s.buffered_len(), 0);
    assert!(s.poll_receive().is_none());
}

#[test]
fn stream_delivers_frames_in_order() {
    let mut s = FramedStream::new((), ());
    let mut bytes = wire(&Frame::ping(Some(7)));
    bytes.extend(wire(&Frame::close(3, "done")));
    s.buffer_received(&bytes).unwrap();
    let a = s.poll_receive().unwrap().unwrap();
    assert_eq!(a.frame_type, FrameType::Ping);
    let b = s.poll_receive().unwrap().unwrap();
    assert_eq!(b.frame_type, FrameType::Close);
    assert_eq!(&b.payload[..], &[0, 3, b'd', b'o', b'n', b'e']);
    assert!(s.poll_receive().is_none());
}

#[test]
fn stream_rejects_too_large_frames() {
    let mut s = FramedStream::new((), ()).with_max_frame_size(4);
    let bytes = wire(&Frame::data(Bytes::from(vec![1u8; 5])));
    s.buffer_received(&bytes[..8]).unwrap();
    match s.poll_receive() {
        Some(Err(FmpError::FrameTooLarge { length, max })) => {
            assert_eq!(length, 5);
            assert_eq!(max, 4);
        }
        other => panic!("unexpected {:?}", other),
    }
    // Nothing was consumed.
    assert_eq!(s.buffered_len(), 8);

    // A frame at the limit is accepted.
    let mut s = FramedStream::new((), ()).with_max_frame_size(5);
    s.buffer_received(&bytes).unwrap();
    assert_eq!(s.poll_receive().unwrap().unwrap().length, 5);
}

#[test]
fn stream_checks_version_before_payload() {
    let mut s = FramedStream::new((), ());
    let mut bytes = wire(&Frame::data(Bytes::from(vec![1u8; 5])));
    bytes[0] = 9;
    s.buffer_received(&bytes[..8]).unwrap();
    assert!(matches!(s.poll_receive(), Some(Err(FmpError::UnsupportedVersion(9)))));
    assert_eq!(s.buffered_len(), 8);
}

#[test]
fn stream_empty_read_is_unexpected_close() {
    let mut s = FramedStream::new((), ());
    s.buffer_received(&[1, 2]).unwrap();
    assert!(matches!(s.buffer_received(&[]), Err(FmpError::UnexpectedClose)));
    assert_eq!(s.buffered_len(), 2);
}

#[test]
fn stream_builders_and_split() {
    let mut s = FramedStream::new(10u32, 20u32).with_max_frame_size(4).strict(true);
    assert_eq!(*s.reader_mut(), 10);
    *s.writer_mut() = 21;
    let bytes = wire(&Frame::data(Bytes::from(vec![1u8; 5])));
    s.buffer_received(&bytes[..9]).unwrap();
    let (mut r, mut w) = s.split();
    assert_eq!(*w.writer_mut(), 21);
    assert_eq!(*r.reader_mut(), 10);
    assert_eq!(r.buffered_len(), 9);
    // The limit came along with the split.
    assert!(matches!(r.poll_receive(), Some(Err(FmpError::FrameTooLarge { length: 5, max: 4 }))));
}

#[test]
fn default_limit_applies() {
    let mut s = FramedStream::new((), ());
    let too_big = (DEFAULT_MAX_FRAME_SIZE as u32) + 1;
    let l = too_big.to_be_bytes();
    s.buffer_received(&[1, 0, 0, 0, l[0], l[1], l[2], l[3]]).unwrap();
    assert!(matches!(s.poll_receive(), Some(Err(FmpError::FrameTooLarge { .. }))));
}

#[test]
fn read_half_checks_version_early() {
    let mut bytes = wire(&Frame::data(Bytes::from(vec![1u8; 5])));
    bytes[0] = 9;
    let (mut r, _w) = FramedStream::new((), ()).split();
    r.buffer_received(&bytes[..8]).unwrap();
    // Like the full stream, the read half checks the version as soon as the header is there.
    assert!(matches!(r.poll_receive(), Some(Err(FmpError::UnsupportedVersion(9)))));
    assert_eq!(r.buffered_len(), 8);
    assert!(matches!(r.buffer_received(&[]), Err(FmpError::UnexpectedClose)));
}

#[test]
fn read_half_and_stream_agree_on_bad_version_over_limit() {
    let header = [0x02u8, 0x00, 0x00, 0x00, 0xFF, 0xFF, 0xFF, 0xFF];
    let mut s = FramedStream::new((), ());
    s.buffer_received(&header).unwrap();
    assert!(matches!(s.poll_receive(), Some(Err(FmpError::UnsupportedVersion(2)))));
    let (mut r, _w) = FramedStream::new((), ()).split();
    r.buffer_received(&header).unwrap();
    assert!(matches!(r.poll_receive(), Some(Err(FmpError::UnsupportedVersion(2)))));
}

#[test]
fn strict_mode_refuses_unknown_type() {
    let mut bytes = wire(&Frame::data(Bytes::from(vec![1u8; 3])));
    bytes[2] = 0x10;
    let mut s = FramedStream::new((), ()).strict(true);
    s.buffer_received(&bytes[..8]).unwrap();
    match s.poll_receive() {
        Some(Err(FmpError::ProtocolViolation(m))) => assert_eq!(m, "unknown frame type 16"),
        other => panic!("unexpected {:?}", other),
    }
    assert_eq!(s.buffered_len(), 8);

    // Without strict mode the same frame reads as DATA.
    let mut s = FramedStream::new((), ());
    s.buffer_received(&bytes).unwrap();
    assert_eq!(s.poll_receive().unwrap().unwrap().frame_type, FrameType::Data);

    // The read half keeps the mode.
    let (mut r, _w) = FramedStream::new((), ()).strict(true).split();
    r.buffer_received(&bytes).unwrap();
    assert!(matches!(r.poll_receive(), Some(Err(FmpError::ProtocolViolation(_)))));
}

#[test]
fn strict_mode_refuses_undefined_flags() {
    let mut bytes = wire(&Frame::data(Bytes::from(vec![1u8; 3])));
    bytes[1] = 0x20;
    let mut s = FramedStream::new((), ()).strict(true);
    s.buffer_received(&bytes).unwrap();
    assert!(matches!(s.poll_receive(), Some(Err(FmpError::InvalidFlags))));
    assert_eq!(s.buffered_len(), bytes.len());

    let mut s = FramedStream::new((), ());
    s.buffer_received(&bytes).unwrap();
    assert_eq!(s.poll_receive().unwrap().unwrap().flags, 0x20);
}

#[test]
fn strict_mode_accepts_conforming_frames() {
    let mut frame = Frame::ping(Some(5));
    frame.flags = framed_message_protocol::flags::HIGH_PRIORITY
        | framed_message_protocol::flags::COMPRESSED
        | framed_message_protocol::flags::HAS_EXTENSIONS;
    let mut s = FramedStream::new((), ()).strict(true);
    s.buffer_received(&wire(&frame)).unwrap();
    assert_eq!(s.poll_receive().unwrap().unwrap(), frame);
}

#[test]
fn chunking_does_not_change_frames() {
    let frames = vec![
        Frame::data(Bytes::from(vec![1u8, 2, 3])),
        Frame::ping(Some(99)),
        Frame::close(7, "x"),
    ];
    let mut bytes = Vec::new();
    for f in &frames {
        bytes.extend(wire(f));
    }
    for chunk in [1usize, 2, 5, 8, 13, bytes.len()] {
        let mut s = FramedStream::new((), ());
        let mut got = Vec::new();
        for piece in bytes.chunks(chunk) {
            s.buffer_received(piece).unwrap();
            while let Some(r) = s.poll_receive() {
                got.push(r.unwrap());
            }
        }
        assert_eq!(got, frames);
        assert_eq!(s.buffered_len(), 0);
        assert!(matches!(s.buffer_received(&[]), Err(FmpError::UnexpectedClose)));
    }
}

#[test]
fn read_half_checksum_mismatch_consumes_frame() {
    let mut frame = Frame::data(Bytes::from(vec![1u8, 2, 3, 4, 5, 6]));
    frame.flags = framed_message_protocol::flags::HAS_CHECKSUM;
    let mut bytes = wire(&frame);
    bytes.extend(wire(&Frame::ping(None)));
    let (mut r, _w) = FramedStream::new((), ()).split();
    r.buffer_received(&bytes).unwrap();
    assert!(matches!(r.poll_receive(), Some(Err(FmpError::ChecksumMismatch))));
    assert_eq!(r.poll_receive().unwrap().unwrap().frame_type, FrameType::Ping);
}
