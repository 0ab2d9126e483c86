//! The variable definition table: one fixed-size descriptor per
//! telemetry channel, and the per-channel decode of a sample record.

use vstd::prelude::*;

verus! {

use vstd::bytes::{spec_u32_from_le_bytes, spec_u64_from_le_bytes, u32_from_le_bytes};
use vstd::slice::slice_subrange;
use vstd::utf8::{decode_utf8, valid_utf8};
use crate::text::{spec_decimal, strip_nul, u32_to_decimal, utf8_to_string};
use crate::utils::{get_double_bits_from_bytes, get_float_bits_from_bytes, get_int_from_bytes};

/// Each descriptor record in the variable table occupies 144 bytes.
pub const VARIABLE_SIZE: usize = 144;

/// One decoded channel value. Numeric wire types keep their exact width;
/// the two floating-point types travel as IEEE-754 bit patterns, for the
/// caller to interpret. A descriptor with an unknown type tag decodes to
/// `Empty`.
#[derive(Debug, Clone, PartialEq)]
pub enum ChannelData {
    Text(String),
    Byte(u8),
    Word(u32),
    FloatBits(u32),
    DoubleBits(u64),
    Empty,
}

/// How a channel value renders as text within the library: text keeps its
/// characters, the integer types render in decimal, an unknown tag renders
/// as the empty string, and the two floating-point kinds do not render
/// here at all — only a caller that interprets IEEE-754 bits can write
/// them out.
pub open spec fn spec_channel_render(data: ChannelData) -> Option<Seq<char>> {
    match data {
        ChannelData::Text(s) => Some(s@),
        ChannelData::Byte(b) => Some(spec_decimal(b as nat)),
        ChannelData::Word(w) => Some(spec_decimal(w as nat)),
        ChannelData::FloatBits(_) => None,
        ChannelData::DoubleBits(_) => None,
        ChannelData::Empty => Some(Seq::empty()),
    }
}

impl ChannelData {
    /// Renders the value as text where the library can: `None` exactly
    /// for the two floating-point kinds, whose bits the caller renders.
    pub fn render(&self) -> (text: Option<String>)
        ensures
            text is Some <==> spec_channel_render(*self) is Some,
            text is Some ==> text->0@ == spec_channel_render(*self)->0,
    {
        match self {
            ChannelData::Text(s) => Some(s.clone()),
            ChannelData::Byte(b) => Some(u32_to_decimal(*b as u32)),
            ChannelData::Word(w) => Some(u32_to_decimal(*w)),
            ChannelData::FloatBits(_) => None,
            ChannelData::DoubleBits(_) => None,
            ChannelData::Empty => Some(String::new()),
        }
    }
}

/// One variable definition: the decodable telemetry channel it names, its
/// wire type tag, and where its value sits inside each sample record.
#[derive(Debug, Clone, PartialEq)]
pub struct VariableHeader {
    pub var_type: u32,
    pub offset: u32,
    pub count: u32,
    pub count_as_time: u8,
    pub name: String,
    pub description: String,
    pub unit: String,
}

/// The 32-bit little-endian word at byte position `pos`.
pub open spec fn spec_le32_at(bytes: Seq<u8>, pos: int) -> u32 {
    spec_u32_from_le_bytes(bytes.subrange(pos, pos + 4))
}

/// The 64-bit little-endian word at byte position `pos`.
pub open spec fn spec_le64_at(bytes: Seq<u8>, pos: int) -> u64 {
    spec_u64_from_le_bytes(bytes.subrange(pos, pos + 8))
}

/// What a fixed-width text field decodes to: the characters of the bytes
/// when they are valid UTF-8, with every null character stripped, and the
/// empty string otherwise.
pub open spec fn spec_parse_string(bytes: Seq<u8>) -> Seq<char> {
    if valid_utf8(bytes) {
        decode_utf8(bytes).filter(|c: char| c != '\0')
    } else {
        Seq::empty()
    }
}

/// How many bytes of a sample record a channel of wire type `var_type`
/// reads: one for the text probe and the 8-bit type, four for the 32-bit
/// types, eight for the 64-bit type, and none for an unknown tag.
pub open spec fn spec_type_width(var_type: u32) -> int {
    if var_type == 0 || var_type == 1 {
        1
    } else if var_type == 2 || var_type == 3 || var_type == 4 {
        4
    } else if var_type == 5 {
        8
    } else {
        0
    }
}

/// What decoding the channel value at `offset` of wire type `var_type`
/// from a sample record yields.
pub open spec fn spec_channel_data_matches(
    data: ChannelData,
    record: Seq<u8>,
    offset: int,
    var_type: u32,
) -> bool {
    if var_type == 0 {
        data matches ChannelData::Text(s) && s@ == spec_parse_string(
            record.subrange(offset, offset + 1),
        )
    } else if var_type == 1 {
        data == ChannelData::Byte(record[offset])
    } else if var_type == 2 || var_type == 3 {
        data == ChannelData::Word(spec_le32_at(record, offset))
    } else if var_type == 4 {
        data == ChannelData::FloatBits(spec_le32_at(record, offset))
    } else if var_type == 5 {
        data == ChannelData::DoubleBits(spec_le64_at(record, offset))
    } else {
        data == ChannelData::Empty
    }
}

/// What decoding the 144-byte descriptor at byte position `base` yields.
pub open spec fn spec_var_matches(v: VariableHeader, bytes: Seq<u8>, base: int) -> bool {
    &&& v.var_type == spec_le32_at(bytes, base)
    &&& v.offset == spec_le32_at(bytes, base + 4)
    &&& v.count == spec_le32_at(bytes, base + 8)
    &&& v.count_as_time == bytes[base + 12]
    &&& v.name@ == spec_parse_string(bytes.subrange(base + 16, base + 48))
    &&& v.description@ == spec_parse_string(bytes.subrange(base + 48, base + 112))
    &&& v.unit@ == spec_parse_string(bytes.subrange(base + 112, base + 144))
}

impl VariableHeader {
    /// Decodes the variable table at `offset` in the file. The table
    /// holds `vars_count` descriptor slots, but the first slot is
    /// sentinel padding and is skipped, so the result holds one
    /// definition per remaining slot.
    pub fn from_buffer(buf: &Vec<u8>, offset: u32, vars_count: u32) -> (output: Vec<
        VariableHeader,
    >)
        requires
            offset as int + vars_count as int * VARIABLE_SIZE as int <= u32::MAX as int,
            offset as int + vars_count as int * VARIABLE_SIZE as int <= buf.len(),
        ensures
            output@.len() == (if vars_count == 0 {
                0int
            } else {
                vars_count as int - 1
            }),
            forall|i: int|
                0 <= i < output@.len() ==> spec_var_matches(
                    output@[i],
                    buf@,
                    offset as int + VARIABLE_SIZE as int * (i + 1),
                ),
    {
        let mut output: Vec<VariableHeader> = Vec::new();
        let mut var_index: u32 = 1;
        while var_index < vars_count
            invariant
                1 <= var_index,
                var_index == 1 || var_index <= vars_count,
                offset as int + vars_count as int * VARIABLE_SIZE as int <= u32::MAX as int,
                offset as int + vars_count as int * VARIABLE_SIZE as int <= buf@.len(),
                output@.len() == var_index - 1,
                forall|i: int|
                    0 <= i < output@.len() ==> spec_var_matches(
                        output@[i],
                        buf@,
                        offset as int + VARIABLE_SIZE as int * (i + 1),
                    ),
            decreases vars_count - var_index,
        {
            let base: usize = offset as usize + VARIABLE_SIZE * (var_index as usize);
            let ghost base_int = base as int;
            assert(base_int + 144 <= buf@.len());
            let var_buf: &[u8] = slice_subrange(buf.as_slice(), base, base + VARIABLE_SIZE);
            proof {
                assert(var_buf@.subrange(0, 4) =~= buf@.subrange(base_int, base_int + 4));
                assert(var_buf@.subrange(4, 8) =~= buf@.subrange(base_int + 4, base_int + 8));
                assert(var_buf@.subrange(8, 12) =~= buf@.subrange(base_int + 8, base_int + 12));
                assert(var_buf@.subrange(16, 48) =~= buf@.subrange(base_int + 16, base_int + 48));
                assert(var_buf@.subrange(48, 112) =~= buf@.subrange(base_int + 48, base_int + 112));
                assert(var_buf@.subrange(112, 144) =~= buf@.subrange(
                    base_int + 112,
                    base_int + 144,
                ));
            }
            let definition = VariableHeader {
                var_type: u32_from_le_bytes(slice_subrange(var_buf, 0, 4)),
                offset: u32_from_le_bytes(slice_subrange(var_buf, 4, 8)),
                count: u32_from_le_bytes(slice_subrange(var_buf, 8, 12)),
                count_as_time: *vstd::slice::slice_index_get(var_buf, 12),
                name: VariableHeader::parse_string_header(var_buf, 16, 48),
                description: VariableHeader::parse_string_header(var_buf, 48, 112),
                unit: VariableHeader::parse_string_header(var_buf, 112, 144),
            };
            output.push(definition);
            var_index = var_index + 1;
        }
        output
    }

    /// Decodes the channel value that this definition locates inside one
    /// just-read sample record.
    pub fn parse_binary_to_value(&self, buf: &Vec<u8>) -> (data: ChannelData)
        requires
            self.offset as int + spec_type_width(self.var_type) <= buf.len(),
        ensures
            spec_channel_data_matches(data, buf@, self.offset as int, self.var_type),
    {
        let offset = self.offset as usize;
        match self.var_type {
            0u32 => ChannelData::Text(
                VariableHeader::parse_string_header(buf.as_slice(), offset, offset + 1),
            ),
            1u32 => ChannelData::Byte(buf[offset]),
            2u32 => ChannelData::Word(get_int_from_bytes(buf, offset)),
            3u32 => ChannelData::Word(get_int_from_bytes(buf, offset)),
            4u32 => ChannelData::FloatBits(get_float_bits_from_bytes(buf, offset)),
            5u32 => ChannelData::DoubleBits(get_double_bits_from_bytes(buf, offset)),
            _ => ChannelData::Empty,
        }
    }

    /// Decodes a fixed-width text field: the bytes between the two
    /// positions as UTF-8, the empty string when they are not valid
    /// UTF-8, and with every null padding character stripped.
    pub fn parse_string_header(buf: &[u8], start_index: usize, end_index: usize) -> (text: String)
        requires
            start_index <= end_index <= buf@.len(),
        ensures
            text@ == spec_parse_string(buf@.subrange(start_index as int, end_index as int)),
    {
        let section = slice_subrange(buf, start_index, end_index);
        match utf8_to_string(section) {
            Some(text) => strip_nul(&text),
            None => String::new(),
        }
    }
}

} // verus!
