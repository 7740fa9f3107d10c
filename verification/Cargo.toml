[package]
name = "framed_message_protocol"
version = "0.1.0"
edition = "2021"
publish = false

[dependencies]
bytes = "1"
crc32fast = "1"
thiserror = "1"
tokio = { version = "1", features = ["io-util"] }
