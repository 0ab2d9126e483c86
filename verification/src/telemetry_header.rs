//! The fixed-size header at the start of every capture file.

use vstd::prelude::*;

verus! {

use vstd::bytes::spec_u32_from_le_bytes;
use vstd::slice::{slice_subrange, slice_to_vec};

/// The header occupies the first 112 bytes of the file.
pub const HEADER_SIZE: usize = 112;

/// The leading region of a capture file, read as a row of 32-bit
/// little-endian words at fixed positions. The offsets and lengths in it
/// locate every other region of the file; the fields are fixed for the
/// lifetime of a capture.
#[derive(Debug, Clone, PartialEq)]
pub struct TelemetryHeader {
    pub version: u32,
    pub status: u32,
    pub tick_rate: u32,
    pub session_info_update: u32,
    pub session_info_offset: u32,
    pub session_info_length: u32,
    pub num_vars: u32,
    pub var_header_offset: u32,
    pub num_buf: u32,
    pub sample_buf_len: u32,
    pub buf_offset: u32,
    /// The first ten words of the header region, kept for callers that
    /// want the raw layout beside the named fields.
    pub parts: Vec<u32>,
}

/// The 32-bit little-endian word at word position `index` in `bytes`.
pub open spec fn spec_word_at(bytes: Seq<u8>, index: int) -> u32 {
    spec_u32_from_le_bytes(bytes.subrange(4 * index, 4 * index + 4))
}

/// The 32-bit little-endian words stored from byte position `start` to
/// the end of `bytes`, stopping where fewer than four bytes remain.
pub open spec fn spec_le_words(bytes: Seq<u8>, start: int) -> Seq<u32>
    decreases bytes.len() - start,
{
    if start < 0 || start + 4 > bytes.len() {
        Seq::empty()
    } else {
        seq![spec_u32_from_le_bytes(bytes.subrange(start, start + 4))] + spec_le_words(
            bytes,
            start + 4,
        )
    }
}

/// What decoding a 112-byte header region yields: each named field is the
/// word at its fixed position, and `parts` keeps the first ten words.
pub open spec fn spec_header_matches(header: TelemetryHeader, bytes: Seq<u8>) -> bool {
    &&& header.version == spec_word_at(bytes, 0)
    &&& header.status == spec_word_at(bytes, 1)
    &&& header.tick_rate == spec_word_at(bytes, 2)
    &&& header.session_info_update == spec_word_at(bytes, 3)
    &&& header.session_info_offset == spec_word_at(bytes, 4)
    &&& header.session_info_length == spec_word_at(bytes, 5)
    &&& header.num_vars == spec_word_at(bytes, 6)
    &&& header.var_header_offset == spec_word_at(bytes, 7)
    &&& header.num_buf == spec_word_at(bytes, 8)
    &&& header.sample_buf_len == spec_word_at(bytes, 9)
    &&& header.buf_offset == spec_word_at(bytes, 13)
    &&& header.parts@.len() == 10
    &&& forall|i: int| 0 <= i < 10 ==> header.parts@[i] == spec_word_at(bytes, i)
}

impl TelemetryHeader {
    /// The size in bytes of the header region.
    pub fn get_header_size() -> (size: usize)
        ensures
            size == HEADER_SIZE,
    {
        HEADER_SIZE
    }

    /// Copies the header region out of the whole file.
    pub fn get_header_slice(file: &Vec<u8>) -> (header: Vec<u8>)
        requires
            file.len() >= HEADER_SIZE,
        ensures
            header@ == file@.subrange(0, HEADER_SIZE as int),
    {
        slice_to_vec(slice_subrange(file.as_slice(), 0, HEADER_SIZE))
    }

    /// Decodes the header region into its named fields.
    pub fn from_buffer(raw_buf: Vec<u8>) -> (header: TelemetryHeader)
        requires
            raw_buf.len() == HEADER_SIZE,
        ensures
            spec_header_matches(header, raw_buf@),
    {
        let buf = Self::parts_to_buffer(&raw_buf, 4, 0, Vec::new());
        proof {
            lemma_le_words_len(raw_buf@, 0);
            assert forall|i: int| 0 <= i < 28 implies spec_le_words(raw_buf@, 0)[i]
                == spec_word_at(raw_buf@, i) by {
                lemma_le_words_index(raw_buf@, 0, i);
            }
        }
        let mut parts: Vec<u32> = Vec::new();
        let mut i: usize = 0;
        while i < 10
            invariant
                i <= 10,
                buf@.len() == 28,
                parts@.len() == i,
                forall|j: int| 0 <= j < i ==> parts@[j] == buf@[j],
            decreases 10 - i,
        {
            parts.push(buf[i]);
            i = i + 1;
        }
        TelemetryHeader {
            version: buf[0],
            status: buf[1],
            tick_rate: buf[2],
            session_info_update: buf[3],
            session_info_offset: buf[4],
            session_info_length: buf[5],
            num_vars: buf[6],
            var_header_offset: buf[7],
            num_buf: buf[8],
            sample_buf_len: buf[9],
            buf_offset: buf[13],
            parts,
        }
    }

    /// Splits a buffer into consecutive 32-bit little-endian words,
    /// appended after `accum`. The word size is fixed at four bytes; the
    /// parameter only keeps the call sites explicit about it.
    pub fn parts_to_buffer(buf: &Vec<u8>, size: usize, start: usize, accum: Vec<u32>) -> (parts:
        Vec<u32>)
        requires
            size == 4,
            buf.len() % 4 == 0,
            start % 4 == 0,
        ensures
            parts@ == accum@ + spec_le_words(buf@, start as int),
    {
        let ghost prefix = accum@;
        let mut parts = accum;
        let mut pos: usize = start;
        while pos < buf.len() && buf.len() - pos >= 4
            invariant
                buf.len() % 4 == 0,
                parts@ + spec_le_words(buf@, pos as int) == prefix + spec_le_words(
                    buf@,
                    start as int,
                ),
            decreases buf@.len() - pos,
        {
            let word = vstd::bytes::u32_from_le_bytes(
                slice_subrange(buf.as_slice(), pos, pos + 4),
            );
            proof {
                assert(spec_le_words(buf@, pos as int) == seq![
                    spec_u32_from_le_bytes(buf@.subrange(pos as int, pos as int + 4)),
                ] + spec_le_words(buf@, pos as int + 4));
                assert(parts@.push(word) + spec_le_words(buf@, pos as int + 4) =~= parts@
                    + spec_le_words(buf@, pos as int));
            }
            parts.push(word);
            pos = pos + 4;
        }
        proof {
            assert(spec_le_words(buf@, pos as int) == Seq::<u32>::empty());
            assert(parts@ + spec_le_words(buf@, pos as int) =~= parts@);
        }
        parts
    }
}

/// The number of whole words from byte position `start` on.
pub proof fn lemma_le_words_len(bytes: Seq<u8>, start: int)
    requires
        0 <= start <= bytes.len(),
        bytes.len() % 4 == 0,
        start % 4 == 0,
    ensures
        spec_le_words(bytes, start).len() == (bytes.len() - start) / 4,
    decreases bytes.len() - start,
{
    if start + 4 > bytes.len() {
        vstd::arithmetic::div_mod::lemma_fundamental_div_mod(bytes.len() as int, 4);
        vstd::arithmetic::div_mod::lemma_fundamental_div_mod(start, 4);
        assert(bytes.len() == start);
    } else {
        lemma_le_words_len(bytes, start + 4);
    }
}

/// Each word that `spec_le_words` collects from position 0 is the word at
/// the matching fixed position.
pub proof fn lemma_le_words_index(bytes: Seq<u8>, start: int, i: int)
    requires
        0 <= start,
        start % 4 == 0,
        0 <= i < spec_le_words(bytes, start).len(),
    ensures
        spec_le_words(bytes, start)[i] == spec_word_at(bytes, start / 4 + i),
    decreases i,
{
    if start + 4 > bytes.len() {
        assert(false);
    } else if i == 0 {
        vstd::arithmetic::div_mod::lemma_fundamental_div_mod(start, 4);
        assert(4 * (start / 4) == start);
    } else {
        lemma_le_words_index(bytes, start + 4, i - 1);
        assert((start + 4) / 4 == start / 4 + 1) by {
            vstd::arithmetic::div_mod::lemma_div_plus_one(start, 4);
        }
    }
}

} // verus!
