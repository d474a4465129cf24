//! The chunk-id link tag.
//!
//! Every link from a category path node to a product group carries the
//! group's chunk id in the link tag, encoded as exactly four little-endian
//! bytes. The encoding is a convention, not a type the store enforces, so
//! decoding is defensive: a tag shorter than four bytes is read as chunk id
//! 0 rather than treated as an error that would abort enumeration.

use vstd::bytes::spec_u32_from_le_bytes;
use vstd::bytes::spec_u32_to_le_bytes;
use vstd::bytes::u32_from_le_bytes;
use vstd::bytes::u32_to_le_bytes;
use vstd::bytes::lemma_auto_spec_u32_to_from_le_bytes;
use vstd::prelude::*;
use vstd::slice::slice_subrange;

verus! {

/// The tag bytes a chunk id is written as: its four little-endian bytes.
pub open spec fn spec_encode_chunk_tag(id: u32) -> Seq<u8> {
    spec_u32_to_le_bytes(id)
}

/// The chunk id a tag reads as: the little-endian value of its first four
/// bytes, or 0 when the tag is shorter than four bytes.
pub open spec fn spec_decode_chunk_tag(tag: Seq<u8>) -> u32 {
    if tag.len() >= 4 {
        spec_u32_from_le_bytes(tag.take(4))
    } else {
        0u32
    }
}

/// Encodes a chunk id as its four-byte little-endian link tag.
pub fn encode_chunk_tag(id: u32) -> (tag: Vec<u8>)
    ensures
        tag@ == spec_encode_chunk_tag(id),
        tag@.len() == 4,
{
    proof {
        lemma_auto_spec_u32_to_from_le_bytes();
    }
    u32_to_le_bytes(id)
}

/// Decodes a link tag to a chunk id, treating an undersized tag as 0.
pub fn decode_chunk_tag(tag: &[u8]) -> (id: u32)
    ensures
        id == spec_decode_chunk_tag(tag@),
{
    if tag.len() >= 4 {
        let head: &[u8] = slice_subrange(tag, 0, 4);
        assert(head@ == tag@.take(4));
        u32_from_le_bytes(head)
    } else {
        0u32
    }
}

/// Law: a tag written for a chunk id always reads back as that chunk id.
pub proof fn lemma_chunk_tag_round_trip(id: u32)
    ensures
        spec_decode_chunk_tag(spec_encode_chunk_tag(id)) == id,
{
    lemma_auto_spec_u32_to_from_le_bytes();
    assert(spec_encode_chunk_tag(id).take(4) =~= spec_encode_chunk_tag(id));
}

} // verus!
