//! The fixed-width little-endian encoding of an accepted value.
use vstd::bytes::{
    lemma_auto_spec_u64_to_from_le_bytes, spec_u64_from_le_bytes, spec_u64_to_le_bytes,
    u64_from_le_bytes, u64_to_le_bytes,
};
use vstd::prelude::*;

verus! {

/// Number of bytes in an encoded value.
pub const ENCODED_LEN: usize = 8;

/// Encodes `value` as eight little-endian bytes.
pub fn encode_value(value: u64) -> (r: Vec<u8>)
    ensures
        r@ == spec_u64_to_le_bytes(value),
        r@.len() == ENCODED_LEN,
{
    proof {
        lemma_auto_spec_u64_to_from_le_bytes();
    }
    u64_to_le_bytes(value)
}

/// Decodes eight little-endian bytes; any other length is refused.
pub fn decode_value(bytes: &[u8]) -> (r: Option<u64>)
    ensures
        bytes@.len() == ENCODED_LEN ==> r == Some(spec_u64_from_le_bytes(bytes@)),
        bytes@.len() != ENCODED_LEN ==> r is None,
{
    if bytes.len() == ENCODED_LEN {
        Some(u64_from_le_bytes(bytes))
    } else {
        None
    }
}

/// Encoding a value and decoding the bytes gives the value back, for every `u64`.
pub proof fn lemma_encode_decode(value: u64)
    ensures
        spec_u64_to_le_bytes(value).len() == ENCODED_LEN,
        spec_u64_from_le_bytes(spec_u64_to_le_bytes(value)) == value,
{
    lemma_auto_spec_u64_to_from_le_bytes();
}

} // verus!
