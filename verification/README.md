# framed_message_protocol

Framed Message Protocol (FMP): binary framing for peer-to-peer and mesh
links. Every frame is an 8-byte header (version, flags, type, a reserved
byte, big-endian `u32` payload length) followed by the payload; with the
`HAS_CHECKSUM` flag the payload ends in the big-endian CRC32 of the rest.

- `src/` is the library, verified with Verus: the frame codec
  (`frame.rs`), the receive decisions of framed streams (`framed.rs`), the
  properties of the codec as a whole (`laws.rs`), and the trusted
  boundary to the `bytes` buffers (`buffers.rs`), to `crc32fast`
  (`checksum.rs`) and to `format!` (`text.rs`).
- `app/` moves bytes between tokio transports and the library
  (`send`, `flush`, `receive`) and holds the error type with its
  `std::error::Error` impl.
- `tests/` exercises the library on concrete frames.
