//! Chunks: a type tag and a payload, sealed by a checksum over both.

use crate::checksum::{checksum, chunk_crc};
use crate::chunk_type::{is_tag, text_of_tag, ChunkType};
use crate::text::{decimal, push_decimal, string_from_utf8};
use crate::wire::{be_bytes, be_u32, length_field, parse, ChunkView, RawChunk};
use crate::wire::{lemma_be_bytes_of_u32, lemma_parse_encoding};
use std::string::FromUtf8Error;
use vstd::prelude::*;
use vstd::slice::slice_to_vec;
use vstd::string::StringExecFns;
use vstd::utf8::{decode_utf8, valid_utf8};

verus! {

/// Why a byte buffer could not be decoded as a chunk.
#[derive(Debug, Clone, Copy, PartialEq, Eq, Structural)]
pub enum ChunkError {
    /// The type tag in the buffer is not four ASCII letters.
    InvalidChunkType,
    /// The buffer is shorter than a record, or shorter than the record that
    /// its length field declares.
    InvalidData,
    /// The checksum in the buffer is not the checksum of the tag and payload
    /// in the buffer.
    InvalidCRC,
}

impl ChunkView {
    /// The checksum carried is the checksum of the tag and the payload.
    pub open spec fn is_sealed(self) -> bool {
        self.crc == chunk_crc(self.chunk_type, self.data)
    }
}

/// The chunk with the given tag and payload: both, with their checksum.
pub open spec fn sealed(tag: Seq<u8>, data: Seq<u8>) -> ChunkView {
    ChunkView { chunk_type: tag, data: data, crc: chunk_crc(tag, data) }
}

/// What decoding makes of a buffer: what parsing makes of it, where the
/// record parsed carries the checksum of its tag and payload, and
/// `InvalidCRC` where it carries another.
pub open spec fn decode(bytes: Seq<u8>) -> Result<ChunkView, ChunkError> {
    match parse(bytes) {
        Ok(record) => if record.is_sealed() {
            Ok(record)
        } else {
            Err(ChunkError::InvalidCRC)
        },
        Err(e) => Err(e),
    }
}

/// Decoding a framed record, with anything behind it, accepts the record
/// exactly when it carries the checksum of its tag and payload, and fails
/// with `InvalidCRC` otherwise.
pub proof fn lemma_decode_encoding(record: ChunkView, rest: Seq<u8>)
    requires
        record.fits(),
    ensures
        decode(record.encoding() + rest) == if record.is_sealed() {
            Ok::<ChunkView, ChunkError>(record)
        } else {
            Err::<ChunkView, ChunkError>(ChunkError::InvalidCRC)
        },
{
    lemma_parse_encoding(record, rest);
}

/// Decoding inverts encoding: the encoding of the chunk made of a tag and a
/// payload that fits the length field decodes to that chunk, with the same
/// tag, payload and checksum.
pub proof fn lemma_round_trip(tag: Seq<u8>, data: Seq<u8>)
    requires
        is_tag(tag),
        data.len() <= u32::MAX,
    ensures
        decode(sealed(tag, data).encoding()) == Ok::<ChunkView, ChunkError>(sealed(tag, data)),
{
    let chunk = sealed(tag, data);
    lemma_decode_encoding(chunk, Seq::empty());
    assert(chunk.encoding() + Seq::<u8>::empty() =~= chunk.encoding());
}

/// The checksum of a chunk is a function of its tag and payload: chunks made
/// of the same tag and the same payload carry the same checksum.
pub proof fn lemma_crc_determined(tag_a: Seq<u8>, data_a: Seq<u8>, tag_b: Seq<u8>, data_b: Seq<u8>)
    requires
        tag_a == tag_b,
        data_a == data_b,
    ensures
        sealed(tag_a, data_a).crc == sealed(tag_b, data_b).crc,
{
}

/// Tampering with the checksum field is detected: the encoding of a chunk
/// with its last four bytes replaced by any other four bytes fails to decode
/// with `InvalidCRC`.
pub proof fn lemma_tampered_crc_field(tag: Seq<u8>, data: Seq<u8>, stored: Seq<u8>)
    requires
        is_tag(tag),
        data.len() <= u32::MAX,
        stored.len() == 4,
        stored != be_bytes(chunk_crc(tag, data)),
    ensures
        sealed(tag, data).encoding() == be_bytes(length_field(data.len())) + tag + data + be_bytes(
            chunk_crc(tag, data),
        ),
        decode(be_bytes(length_field(data.len())) + tag + data + stored) == Err::<
            ChunkView,
            ChunkError,
        >(ChunkError::InvalidCRC),
{
    let tampered = ChunkView { chunk_type: tag, data: data, crc: be_u32(stored) };
    lemma_be_bytes_of_u32(stored);
    lemma_decode_encoding(tampered, Seq::empty());
    assert(tampered.encoding() + Seq::<u8>::empty() =~= tampered.encoding());
}

/// Tampering with the tag or the payload is detected wherever it changes
/// their checksum: a record that carries the checksum of another tag and
/// payload, its own tag still four letters, fails to decode with
/// `InvalidCRC`.
pub proof fn lemma_tampered_body(record: ChunkView, tag: Seq<u8>, data: Seq<u8>)
    requires
        record.fits(),
        record.crc == chunk_crc(tag, data),
        chunk_crc(record.chunk_type, record.data) != chunk_crc(tag, data),
    ensures
        decode(record.encoding()) == Err::<ChunkView, ChunkError>(ChunkError::InvalidCRC),
{
    lemma_decode_encoding(record, Seq::empty());
    assert(record.encoding() + Seq::<u8>::empty() =~= record.encoding());
}

/// The summary of a chunk, for people to read: the length field, the tag as
/// text, the payload's size and the checksum, the numbers in decimal, one
/// to a line.
pub open spec fn summary_text(chunk: ChunkView) -> Seq<char> {
    "Chunk {\n  Length: "@ + decimal(length_field(chunk.data.len()) as nat) + "\n  Type: "@
        + text_of_tag(chunk.chunk_type) + "\n  Data: "@ + decimal(chunk.data.len())
        + " bytes\n  Crc: "@ + decimal(chunk.crc as nat) + "\n}\n"@
}

/// A chunk: a type tag and a payload, with the checksum of both. The checksum
/// of a live chunk is always the one computed over its tag and payload.
#[derive(Debug)]
pub struct Chunk {
    raw: RawChunk,
}

impl View for Chunk {
    type V = ChunkView;

    closed spec fn view(&self) -> ChunkView {
        self.raw@
    }
}

impl Chunk {
    #[verifier::type_invariant]
    spec fn well_formed(&self) -> bool {
        is_tag(self.raw@.chunk_type) && self.raw@.is_sealed()
    }

    /// Makes a chunk of a tag and a payload, computing their checksum.
    pub fn new(chunk_type: ChunkType, data: Vec<u8>) -> (chunk: Chunk)
        ensures
            chunk@ == sealed(chunk_type@, data@),
            is_tag(chunk@.chunk_type),
    {
        let _ = chunk_type.bytes();
        let crc = checksum(&chunk_type, data.as_slice());
        Chunk { raw: RawChunk { chunk_type, data, crc } }
    }

    /// Decodes the record at the front of `bytes`, and accepts it if the
    /// checksum it carries is the checksum of its tag and payload.
    pub fn decode(bytes: &[u8]) -> (decoded: Result<Chunk, ChunkError>)
        ensures
            match decoded {
                Ok(chunk) => decode(bytes@) == Ok::<ChunkView, ChunkError>(chunk@),
                Err(e) => decode(bytes@) == Err::<ChunkView, ChunkError>(e),
            },
            bytes@.len() < 12 ==> decoded matches Err(ChunkError::InvalidData),
    {
        let raw = match RawChunk::parse(bytes) {
            Ok(raw) => raw,
            Err(e) => {
                return Err(e);
            },
        };
        let computed = checksum(&raw.chunk_type, raw.data.as_slice());
        match raw.check_crc(computed) {
            Ok(()) => Ok(Chunk { raw }),
            Err(e) => Err(e),
        }
    }

    /// Encodes the chunk: big-endian length, tag, payload, big-endian
    /// checksum. Unless the payload is too long for the length field, the
    /// encoding decodes to the chunk.
    pub fn as_bytes(&self) -> (bytes: Vec<u8>)
        ensures
            bytes@ == self@.encoding(),
            self@.data.len() <= u32::MAX ==> decode(bytes@) == Ok::<ChunkView, ChunkError>(self@),
    {
        proof {
            use_type_invariant(self);
            if self@.data.len() <= u32::MAX {
                lemma_decode_encoding(self@, Seq::empty());
                assert(self@.encoding() + Seq::<u8>::empty() =~= self@.encoding());
            }
        }
        self.raw.to_bytes()
    }

    /// The length of the payload, as the length field of the encoding holds
    /// it.
    pub fn length(&self) -> (length: u32)
        ensures
            length == length_field(self@.data.len()),
            self@.data.len() <= u32::MAX ==> length == self@.data.len(),
    {
        self.raw.length()
    }

    /// The type tag.
    pub fn chunk_type(&self) -> (chunk_type: &ChunkType)
        ensures
            chunk_type@ == self@.chunk_type,
            is_tag(chunk_type@),
    {
        proof {
            use_type_invariant(self);
        }
        &self.raw.chunk_type
    }

    /// The payload.
    pub fn data(&self) -> (data: &[u8])
        ensures
            data@ == self@.data,
    {
        self.raw.data.as_slice()
    }

    /// The payload as text, if it is valid UTF-8.
    pub fn data_as_string(&self) -> (text: Result<String, FromUtf8Error>)
        ensures
            match text {
                Ok(text) => valid_utf8(self@.data) && text@ == decode_utf8(self@.data),
                Err(_) => !valid_utf8(self@.data),
            },
    {
        string_from_utf8(slice_to_vec(self.raw.data.as_slice()))
    }

    /// A summary of the chunk, for people to read.
    pub fn summary(&self) -> (text: String)
        ensures
            text@ == summary_text(self@),
    {
        let mut text = String::new();
        text.append("Chunk {\n  Length: ");
        push_decimal(&mut text, self.length() as u64);
        text.append("\n  Type: ");
        text.append(self.raw.chunk_type.to_text().as_str());
        text.append("\n  Data: ");
        push_decimal(&mut text, self.raw.data.len() as u64);
        text.append(" bytes\n  Crc: ");
        push_decimal(&mut text, self.raw.crc as u64);
        text.append("\n}\n");
        text
    }

    /// The checksum, which is the one of the tag and the payload.
    pub fn crc(&self) -> (crc: u32)
        ensures
            crc == self@.crc,
            crc == chunk_crc(self@.chunk_type, self@.data),
    {
        proof {
            use_type_invariant(self);
        }
        self.raw.crc
    }
}

} // verus!
