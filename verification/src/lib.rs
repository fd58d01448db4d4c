//! A validated codec for PNG-style chunk records: a four-letter type tag, a
//! payload, and a CRC-32 over both, framed as
//! `LENGTH (4 bytes, big-endian) || TYPE (4 bytes) || DATA || CRC (4 bytes, big-endian)`.

pub mod checksum;
pub mod chunk;
pub mod chunk_type;
pub mod text;
pub mod wire;
