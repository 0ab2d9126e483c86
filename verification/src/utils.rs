//! Little-endian numeric extraction from byte buffers.

use vstd::prelude::*;

verus! {

use vstd::bytes::{spec_u32_from_le_bytes, spec_u32_to_le_bytes, spec_u64_from_le_bytes};
use vstd::bytes::{u32_from_le_bytes, u32_to_le_bytes, u64_from_le_bytes};
use vstd::slice::slice_subrange;

/// The 32-bit little-endian unsigned integer stored at `start` in `buf`.
pub fn get_int_from_bytes(buf: &Vec<u8>, start: usize) -> (value: u32)
    requires
        start + 4 <= buf.len(),
    ensures
        value == spec_u32_from_le_bytes(buf@.subrange(start as int, start as int + 4)),
{
    u32_from_le_bytes(slice_subrange(buf.as_slice(), start, start + 4))
}

/// The bit pattern of the 32-bit IEEE-754 value stored little-endian at
/// `start` in `buf`. The bits are handed on uninterpreted; turning them
/// into a floating-point number is the caller's business.
pub fn get_float_bits_from_bytes(buf: &Vec<u8>, start: usize) -> (bits: u32)
    requires
        start + 4 <= buf.len(),
    ensures
        bits == spec_u32_from_le_bytes(buf@.subrange(start as int, start as int + 4)),
{
    u32_from_le_bytes(slice_subrange(buf.as_slice(), start, start + 4))
}

/// The bit pattern of the 64-bit IEEE-754 value stored little-endian at
/// `start` in `buf`.
pub fn get_double_bits_from_bytes(buf: &Vec<u8>, start: usize) -> (bits: u64)
    requires
        start + 8 <= buf.len(),
    ensures
        bits == spec_u64_from_le_bytes(buf@.subrange(start as int, start as int + 8)),
{
    u64_from_le_bytes(slice_subrange(buf.as_slice(), start, start + 8))
}

/// The four little-endian bytes that store `value`: the inverse of
/// `get_int_from_bytes` and `get_float_bits_from_bytes`.
pub fn int_to_bytes(value: u32) -> (bytes: Vec<u8>)
    ensures
        bytes@ == spec_u32_to_le_bytes(value),
        bytes@.len() == 4,
        spec_u32_from_le_bytes(bytes@) == value,
{
    proof {
        vstd::bytes::lemma_auto_spec_u32_to_from_le_bytes();
    }
    u32_to_le_bytes(value)
}

/// Little-endian 32-bit decode and re-encode are mutually inverse: any
/// four bytes survive a decode/encode round trip unchanged, and any
/// 32-bit value survives an encode/decode round trip. In particular a
/// 32-bit float field decoded to its bit pattern and written back with
/// the same little-endian scheme reproduces the original four bytes.
pub proof fn lemma_int_bytes_round_trip(bytes: Seq<u8>, value: u32)
    requires
        bytes.len() == 4,
    ensures
        spec_u32_to_le_bytes(spec_u32_from_le_bytes(bytes)) == bytes,
        spec_u32_from_le_bytes(spec_u32_to_le_bytes(value)) == value,
{
    vstd::bytes::lemma_auto_spec_u32_to_from_le_bytes();
    assert(spec_u32_to_le_bytes(value).len() == 4);
}

} // verus!
