//! The byte layout of a chunk record:
//! `LENGTH (4 bytes) || TYPE (4 bytes) || DATA (LENGTH bytes) || CRC (4 bytes)`,
//! with both integers big-endian. This module frames and parses records; it
//! does not judge whether the checksum a record carries is the right one.

use crate::chunk::ChunkError;
use crate::chunk_type::{is_tag, ChunkType};
use vstd::prelude::*;
use vstd::slice::{slice_subrange, slice_to_vec};

verus! {

/// The bytes of a record besides its payload: length, type and checksum.
pub const OVERHEAD: usize = 12;

/// The number that four bytes spell, most significant byte first.
pub open spec fn be_u32(b: Seq<u8>) -> u32
    recommends
        b.len() == 4,
{
    (b[0] * 0x100_0000 + b[1] * 0x1_0000 + b[2] * 0x100 + b[3]) as u32
}

/// The four bytes that spell `x`, most significant byte first.
pub open spec fn be_bytes(x: u32) -> Seq<u8> {
    seq![
        (x / 0x100_0000) as u8,
        (x / 0x1_0000 % 0x100) as u8,
        (x / 0x100 % 0x100) as u8,
        (x % 0x100) as u8,
    ]
}

/// Spelling a number and reading it back gives the number.
pub proof fn lemma_be_u32_of_bytes(x: u32)
    ensures
        be_bytes(x).len() == 4,
        be_u32(be_bytes(x)) == x,
{
}

/// Reading four bytes and spelling the number gives the bytes, so two
/// different groups of four bytes spell different numbers.
pub proof fn lemma_be_bytes_of_u32(b: Seq<u8>)
    requires
        b.len() == 4,
    ensures
        be_bytes(be_u32(b)) == b,
{
    let x = be_u32(b);
    let low16 = b[2] * 0x100 + b[3];
    let low24 = b[1] * 0x1_0000 + low16;
    assert(x == b[0] * 0x100_0000 + low24);
    assert(x / 0x100_0000 == b[0]);
    let high16 = b[0] * 0x100 + b[1];
    assert(x == high16 * 0x1_0000 + low16);
    assert(x / 0x1_0000 == high16);
    let high24 = high16 * 0x100 + b[2];
    assert(x == high24 * 0x100 + b[3]);
    assert(x / 0x100 == high24);
    assert(be_bytes(x) =~= b);
}

/// Reads the big-endian number at `bytes[at..at + 4]`.
fn read_be_u32(bytes: &[u8], at: usize) -> (x: u32)
    requires
        at + 4 <= bytes@.len(),
    ensures
        x == be_u32(bytes@.subrange(at as int, at + 4)),
{
    (bytes[at] as u32) * 0x100_0000 + (bytes[at + 1] as u32) * 0x1_0000 + (bytes[at + 2] as u32)
        * 0x100 + (bytes[at + 3] as u32)
}

/// Appends the four bytes of `x`, most significant first.
fn push_be_u32(out: &mut Vec<u8>, x: u32)
    ensures
        final(out)@ == old(out)@ + be_bytes(x),
{
    out.push((x / 0x100_0000) as u8);
    out.push((x / 0x1_0000 % 0x100) as u8);
    out.push((x / 0x100 % 0x100) as u8);
    out.push((x % 0x100) as u8);
    proof {
        assert(out@ =~= old(out)@ + be_bytes(x));
    }
}

/// What the length field of a record says for a payload of `n` bytes: `n`
/// itself as long as it fits the field, its low 32 bits beyond that.
pub open spec fn length_field(n: nat) -> u32 {
    (n % 0x1_0000_0000) as u32
}

/// What a chunk record holds, as mathematical values.
pub struct ChunkView {
    /// The bytes of the type tag.
    pub chunk_type: Seq<u8>,
    /// The payload.
    pub data: Seq<u8>,
    /// The checksum carried with them.
    pub crc: u32,
}

impl ChunkView {
    /// The record can be framed and parsed back: the tag is four letters and
    /// the payload's length fits the length field.
    pub open spec fn fits(self) -> bool {
        is_tag(self.chunk_type) && self.data.len() <= u32::MAX
    }

    /// The record on the wire: length, tag, payload, checksum.
    pub open spec fn encoding(self) -> Seq<u8> {
        be_bytes(length_field(self.data.len())) + self.chunk_type + self.data + be_bytes(self.crc)
    }
}

/// What parsing makes of a buffer. A buffer shorter than the twelve bytes
/// around a payload, or shorter than those plus the payload that its length
/// field declares, is `InvalidData`; then a tag that is not four letters is
/// `InvalidChunkType`; otherwise the record is read off the front of the
/// buffer, and bytes behind it are left alone.
pub open spec fn parse(bytes: Seq<u8>) -> Result<ChunkView, ChunkError> {
    if bytes.len() < 12 {
        Err(ChunkError::InvalidData)
    } else {
        let n = be_u32(bytes.subrange(0, 4)) as int;
        if bytes.len() < 12 + n {
            Err(ChunkError::InvalidData)
        } else if !is_tag(bytes.subrange(4, 8)) {
            Err(ChunkError::InvalidChunkType)
        } else {
            Ok(
                ChunkView {
                    chunk_type: bytes.subrange(4, 8),
                    data: bytes.subrange(8, 8 + n),
                    crc: be_u32(bytes.subrange(8 + n, 12 + n)),
                },
            )
        }
    }
}

/// Parsing is the inverse of framing: a framed record, with anything behind
/// it, parses to the record.
pub proof fn lemma_parse_encoding(record: ChunkView, rest: Seq<u8>)
    requires
        record.fits(),
    ensures
        parse(record.encoding() + rest) == Ok::<ChunkView, ChunkError>(record),
{
    let bytes = record.encoding() + rest;
    let n = record.data.len() as int;
    lemma_be_u32_of_bytes(length_field(record.data.len()));
    lemma_be_u32_of_bytes(record.crc);
    assert(bytes.subrange(0, 4) =~= be_bytes(length_field(record.data.len())));
    assert(bytes.subrange(4, 8) =~= record.chunk_type);
    assert(bytes.subrange(8, 8 + n) =~= record.data);
    assert(bytes.subrange(8 + n, 12 + n) =~= be_bytes(record.crc));
}

/// A chunk record as framed on the wire: tag and payload with the checksum
/// that came with them, which may or may not be their checksum.
#[derive(Debug)]
pub struct RawChunk {
    /// The type tag.
    pub chunk_type: ChunkType,
    /// The payload.
    pub data: Vec<u8>,
    /// The checksum carried with them.
    pub crc: u32,
}

impl View for RawChunk {
    type V = ChunkView;

    open spec fn view(&self) -> ChunkView {
        ChunkView { chunk_type: self.chunk_type@, data: self.data@, crc: self.crc }
    }
}

impl RawChunk {
    /// The value of the record's length field.
    pub fn length(&self) -> (length: u32)
        ensures
            length == length_field(self@.data.len()),
            self@.data.len() <= u32::MAX ==> length == self@.data.len(),
    {
        ((self.data.len() as u64) % 0x1_0000_0000) as u32
    }

    /// Reads a record off the front of `bytes`.
    pub fn parse(bytes: &[u8]) -> (parsed: Result<RawChunk, ChunkError>)
        ensures
            match parsed {
                Ok(raw) => parse(bytes@) == Ok::<ChunkView, ChunkError>(raw@),
                Err(e) => parse(bytes@) == Err::<ChunkView, ChunkError>(e),
            },
            bytes@.len() < 12 ==> parsed matches Err(ChunkError::InvalidData),
    {
        let len = bytes.len();
        if len < OVERHEAD {
            return Err(ChunkError::InvalidData);
        }
        let declared = read_be_u32(bytes, 0);
        if (len as u64) < 12 + declared as u64 {
            return Err(ChunkError::InvalidData);
        }
        let n = declared as usize;
        let tag = [bytes[4], bytes[5], bytes[6], bytes[7]];
        proof {
            assert(tag@ =~= bytes@.subrange(4, 8));
        }
        let chunk_type = match ChunkType::from_bytes(tag) {
            Ok(chunk_type) => chunk_type,
            Err(_) => {
                return Err(ChunkError::InvalidChunkType);
            },
        };
        let data = slice_to_vec(slice_subrange(bytes, 8, 8 + n));
        let crc = read_be_u32(bytes, 8 + n);
        Ok(RawChunk { chunk_type, data, crc })
    }

    /// Frames the record: big-endian length, tag, payload, big-endian
    /// checksum.
    pub fn to_bytes(&self) -> (bytes: Vec<u8>)
        ensures
            bytes@ == self@.encoding(),
    {
        let tag = self.chunk_type.bytes();
        let mut out: Vec<u8> = Vec::new();
        push_be_u32(&mut out, self.length());
        out.extend_from_slice(tag.as_slice());
        out.extend_from_slice(self.data.as_slice());
        push_be_u32(&mut out, self.crc);
        proof {
            assert(out@ =~= self@.encoding());
        }
        out
    }

    /// Judges the checksum that the record carries against `computed`, the
    /// checksum computed over its tag and payload.
    pub fn check_crc(&self, computed: u32) -> (checked: Result<(), ChunkError>)
        ensures
            checked == if self@.crc == computed {
                Ok::<(), ChunkError>(())
            } else {
                Err::<(), ChunkError>(ChunkError::InvalidCRC)
            },
    {
        if self.crc == computed {
            Ok(())
        } else {
            Err(ChunkError::InvalidCRC)
        }
    }
}

} // verus!
