//! The small fixed-size block of session timing fields that follows the
//! start of the file.

use vstd::prelude::*;

verus! {

use vstd::bytes::{spec_u32_from_le_bytes, spec_u64_from_le_bytes};
use vstd::slice::{slice_subrange, slice_to_vec};
use crate::utils::{get_double_bits_from_bytes, get_float_bits_from_bytes, get_int_from_bytes};

/// Where the metadata region starts in the file.
pub const METADATA_OFFSET: usize = 32;

/// Session timing and lap summary fields. The start date is a 32-bit
/// IEEE-754 value and the start and end times are 64-bit ones; all three
/// are kept as their bit patterns, since the library never interprets
/// them numerically. Purely descriptive, never mutated after parse.
#[derive(Debug, Clone, PartialEq)]
pub struct TelemetryMetadata {
    pub start_date: u32,
    pub start_time: u64,
    pub end_time: u64,
    pub lap_count: u32,
    pub record_count: u32,
}

/// What decoding a metadata region yields: one 32-bit field, two 64-bit
/// fields and one count, little-endian at fixed positions, and a record
/// count that starts at zero.
pub open spec fn spec_metadata_matches(metadata: TelemetryMetadata, bytes: Seq<u8>) -> bool {
    &&& metadata.start_date == spec_u32_from_le_bytes(bytes.subrange(0, 4))
    &&& metadata.start_time == spec_u64_from_le_bytes(bytes.subrange(8, 16))
    &&& metadata.end_time == spec_u64_from_le_bytes(bytes.subrange(16, 24))
    &&& metadata.lap_count == spec_u32_from_le_bytes(bytes.subrange(24, 28))
    &&& metadata.record_count == 0
}

impl TelemetryMetadata {
    /// The size in bytes of the metadata region proper.
    pub fn get_header_size() -> (size: usize)
        ensures
            size == METADATA_OFFSET,
    {
        METADATA_OFFSET
    }

    /// Copies the region between the metadata offset and the end of the
    /// leading header region out of the whole file.
    pub fn get_sub_header_slice(file: &Vec<u8>, header_size: usize) -> (sub: Vec<u8>)
        requires
            METADATA_OFFSET <= header_size <= file.len(),
        ensures
            sub@ == file@.subrange(METADATA_OFFSET as int, header_size as int),
    {
        slice_to_vec(slice_subrange(file.as_slice(), METADATA_OFFSET, header_size))
    }

    /// Decodes the metadata fields from the start of `buf`.
    pub fn from_buffer(buf: Vec<u8>) -> (metadata: TelemetryMetadata)
        requires
            buf.len() >= 28,
        ensures
            spec_metadata_matches(metadata, buf@),
    {
        TelemetryMetadata {
            start_date: get_float_bits_from_bytes(&buf, 0),
            start_time: get_double_bits_from_bytes(&buf, 8),
            end_time: get_double_bits_from_bytes(&buf, 16),
            lap_count: get_int_from_bytes(&buf, 24),
            record_count: 0,
        }
    }
}

} // verus!
