//! The capture orchestrator: sequences the header, metadata, session and
//! variable table readers over one capture's bytes and binds a sampler to
//! the same capture.

use vstd::prelude::*;

verus! {

use crate::metric_headers::{spec_var_matches, VariableHeader, VARIABLE_SIZE};
use crate::session_info::{spec_session_text, SessionInfo};
use crate::telemetry_header::{spec_header_matches, spec_word_at, TelemetryHeader, HEADER_SIZE};
use crate::telemetry_metadata::{spec_metadata_matches, TelemetryMetadata, METADATA_OFFSET};
use crate::telemetry_sample::TelemetrySampler;

/// One fully decoded capture: the fixed header, the metadata block, the
/// session text, and a sampler bound to the same capture's sample region.
#[derive(Debug)]
pub struct Telemetry {
    pub header: TelemetryHeader,
    pub metadata: TelemetryMetadata,
    pub session: String,
    pub sampler: TelemetrySampler,
}

/// Why a capture fails to decode. Any failure aborts the whole decode;
/// there is no partial-success mode.
#[derive(Debug, Clone, Copy, PartialEq, Eq, Structural)]
pub enum TelemetryError {
    /// The file is shorter than the fixed header region.
    FileTooShort,
    /// The session info block that the header locates starts at offset
    /// zero or runs past the end of the file.
    SessionInfoOutOfRange,
    /// The variable table that the header locates runs past the end of
    /// the file, or its extent does not fit the offset arithmetic.
    VariableTableOutOfRange,
}

/// Whether the session info block that the header words locate lies
/// inside the file: its one-based offset is at least one, and its end
/// stays within both the offset arithmetic and the file.
pub open spec fn spec_session_in_range(bytes: Seq<u8>) -> bool {
    let offset = spec_word_at(bytes, 4);
    let length = spec_word_at(bytes, 5);
    &&& offset >= 1
    &&& offset as int + length as int <= u32::MAX as int
    &&& offset as int + length as int <= bytes.len()
}

/// Whether the variable table that the header words locate lies inside
/// the file.
pub open spec fn spec_var_table_in_range(bytes: Seq<u8>) -> bool {
    let offset = spec_word_at(bytes, 7);
    let count = spec_word_at(bytes, 6);
    &&& offset as int + count as int * VARIABLE_SIZE as int <= u32::MAX as int
    &&& offset as int + count as int * VARIABLE_SIZE as int <= bytes.len()
}

/// Whether a byte buffer decodes as a whole capture.
pub open spec fn spec_capture_ok(bytes: Seq<u8>) -> bool {
    &&& bytes.len() >= HEADER_SIZE
    &&& spec_session_in_range(bytes)
    &&& spec_var_table_in_range(bytes)
}

/// What a successful decode hands back: every component decoded from the
/// region that the header locates for it, and a fresh sampler bound to
/// the capture's path and sample region.
pub open spec fn spec_telemetry_matches(t: Telemetry, bytes: Seq<u8>, path: Seq<char>) -> bool {
    let session_offset = spec_word_at(bytes, 4) as int;
    let session_length = spec_word_at(bytes, 5) as int;
    let num_vars = spec_word_at(bytes, 6);
    let table_offset = spec_word_at(bytes, 7) as int;
    &&& spec_header_matches(t.header, bytes.subrange(0, HEADER_SIZE as int))
    &&& spec_metadata_matches(t.metadata, bytes.subrange(METADATA_OFFSET as int, HEADER_SIZE as int))
    &&& t.session@ == spec_session_text(
        bytes.subrange(session_offset - 1, session_offset + session_length),
    )
    &&& t.sampler.headers@.len() == (if num_vars == 0 {
        0int
    } else {
        num_vars as int - 1
    })
    &&& forall|i: int|
        0 <= i < t.sampler.headers@.len() ==> spec_var_matches(
            t.sampler.headers@[i],
            bytes,
            table_offset + VARIABLE_SIZE as int * (i + 1),
        )
    &&& t.sampler.sample_count == 0
    &&& t.sampler.header_offset == spec_word_at(bytes, 13)
    &&& t.sampler.variable_buf_len == spec_word_at(bytes, 9)
    &&& t.sampler.file@ == path
}

/// Decodes one whole capture from its bytes: the header first, then the
/// metadata, session text and variable table from the regions the header
/// locates, and a sampler bound to the same capture's path. Any region
/// that falls outside the file aborts the decode with the stage that
/// failed; nothing partial is returned.
pub fn load_telemetry(path: String, file_contents: &Vec<u8>) -> (result: Result<
    Telemetry,
    TelemetryError,
>)
    ensures
        result is Ok <==> spec_capture_ok(file_contents@),
        result matches Ok(t) ==> spec_telemetry_matches(t, file_contents@, path@),
        result matches Err(e) && e == TelemetryError::FileTooShort <==> file_contents@.len()
            < HEADER_SIZE,
        result matches Err(e) && e == TelemetryError::SessionInfoOutOfRange <==> (
        file_contents@.len() >= HEADER_SIZE && !spec_session_in_range(file_contents@)),
        result matches Err(e) && e == TelemetryError::VariableTableOutOfRange <==> (
        file_contents@.len() >= HEADER_SIZE && spec_session_in_range(file_contents@)
            && !spec_var_table_in_range(file_contents@)),
{
    if file_contents.len() < TelemetryHeader::get_header_size() {
        return Err(TelemetryError::FileTooShort);
    }
    let header_buffer: Vec<u8> = TelemetryHeader::get_header_slice(file_contents);
    let header: TelemetryHeader = TelemetryHeader::from_buffer(header_buffer);
    proof {
        assert forall|i: int| 0 <= i < 28 implies spec_word_at(
            file_contents@.subrange(0, HEADER_SIZE as int),
            i,
        ) == spec_word_at(file_contents@, i) by {
            assert(file_contents@.subrange(0, HEADER_SIZE as int).subrange(4 * i, 4 * i + 4)
                =~= file_contents@.subrange(4 * i, 4 * i + 4));
        }
    }
    let sub_header_buffer: Vec<u8> = TelemetryMetadata::get_sub_header_slice(
        file_contents,
        TelemetryHeader::get_header_size(),
    );
    let metadata: TelemetryMetadata = TelemetryMetadata::from_buffer(sub_header_buffer);

    if header.session_info_offset < 1 {
        return Err(TelemetryError::SessionInfoOutOfRange);
    }
    let session_end: u64 = header.session_info_offset as u64 + header.session_info_length as u64;
    if session_end > u32::MAX as u64 || session_end > file_contents.len() as u64 {
        return Err(TelemetryError::SessionInfoOutOfRange);
    }
    let session: String = SessionInfo::from_buffer(
        file_contents,
        header.session_info_offset,
        header.session_info_length,
    );

    let table_end: u64 = header.var_header_offset as u64 + header.num_vars as u64 * (
    VARIABLE_SIZE as u64);
    if table_end > u32::MAX as u64 || table_end > file_contents.len() as u64 {
        return Err(TelemetryError::VariableTableOutOfRange);
    }
    let vars: Vec<VariableHeader> = VariableHeader::from_buffer(
        file_contents,
        header.var_header_offset,
        header.num_vars,
    );

    let sample_region_offset = header.buf_offset;
    let record_length = header.sample_buf_len;
    let sampler = TelemetrySampler::new(path, sample_region_offset, record_length, vars);
    Ok(Telemetry { header, metadata, session, sampler })
}

/// The bound that both fixed-region readers stay under: the larger of the
/// header region's end and the metadata region's offset plus its size.
pub open spec fn spec_reader_prefix_bound() -> int {
    if HEADER_SIZE as int >= METADATA_OFFSET as int + 32 {
        HEADER_SIZE as int
    } else {
        METADATA_OFFSET as int + 32
    }
}

/// Both fixed-position decodes read only the file's leading bytes: the
/// header reader consumes the region from byte 0 up to byte 112, the
/// metadata reader a region starting at byte 32 whose decoded fields end
/// by byte 60, and both regions lie within the first
/// `max(112, 32 + 32)` bytes of the file.
pub proof fn lemma_reader_regions_within_prefix()
    ensures
        spec_reader_prefix_bound() == 112,
        0 <= METADATA_OFFSET < METADATA_OFFSET + 28 <= spec_reader_prefix_bound(),
        0 < HEADER_SIZE <= spec_reader_prefix_bound(),
{
}

} // verus!
