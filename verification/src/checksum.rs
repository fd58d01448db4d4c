//! The checksum that seals a chunk: a CRC-32 over the type tag and the
//! payload, in that order.

use crate::chunk_type::ChunkType;
use vstd::prelude::*;

verus! {

/// The CRC-32 of `bytes` with the ISO-HDLC ("IEEE") polynomial: the value
/// that `crc::crc32::checksum_ieee` returns for them.
pub uninterp spec fn crc32_ieee(bytes: Seq<u8>) -> u32;

/// Calls `crc::crc32::checksum_ieee`. Trusted: the call returns, and what it
/// returns depends on the bytes alone. Nothing is claimed about the value.
#[verifier::external_body]
fn checksum_ieee(bytes: &[u8]) -> (sum: u32)
    ensures
        sum == crc32_ieee(bytes@),
{
    crc::crc32::checksum_ieee(bytes)
}

/// The checksum of a chunk with the given tag and payload: the CRC-32 of the
/// tag's bytes followed by the payload. The length field and the checksum
/// field of the encoding are not covered.
pub open spec fn chunk_crc(tag: Seq<u8>, data: Seq<u8>) -> u32 {
    crc32_ieee(tag + data)
}

/// Computes the checksum of a chunk with the given tag and payload.
pub fn checksum(chunk_type: &ChunkType, data: &[u8]) -> (sum: u32)
    ensures
        sum == chunk_crc(chunk_type@, data@),
{
    let tag = chunk_type.bytes();
    let mut covered: Vec<u8> = Vec::new();
    covered.extend_from_slice(tag.as_slice());
    covered.extend_from_slice(data);
    proof {
        assert(covered@ =~= chunk_type@ + data@);
    }
    checksum_ieee(covered.as_slice())
}

} // verus!
