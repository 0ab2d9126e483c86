//! The embedded text block that describes the session.

use vstd::prelude::*;

verus! {

use crate::text::push_char;

/// Marker type for the session info reader; the decoded block itself is
/// plain text.
#[derive(Debug)]
pub struct SessionInfo {}

/// Whether a session block byte is printable ASCII.
pub open spec fn spec_printable(byte: u8) -> bool {
    0x20 <= byte <= 0x7e
}

/// How one byte of the session block renders: a printable ASCII byte
/// keeps its character, every other byte becomes the placeholder `'?'`.
pub open spec fn spec_session_char(byte: u8) -> char {
    if spec_printable(byte) {
        byte as char
    } else {
        '?'
    }
}

/// The text that a run of session block bytes renders to, byte by byte.
pub open spec fn spec_session_text(bytes: Seq<u8>) -> Seq<char> {
    bytes.map_values(|byte: u8| spec_session_char(byte))
}

/// Extraction on a buffer of printable-ASCII bytes reproduces the bytes
/// exactly, character for character, with no placeholder substitution: a
/// position renders as `'?'` only where the byte itself is `'?'`.
pub proof fn lemma_session_text_printable(bytes: Seq<u8>)
    requires
        forall|i: int| 0 <= i < bytes.len() ==> 0x20 <= #[trigger] bytes[i] <= 0x7e,
    ensures
        spec_session_text(bytes).len() == bytes.len(),
        forall|i: int| 0 <= i < bytes.len() ==> spec_session_text(bytes)[i] == bytes[i] as char,
        forall|i: int|
            0 <= i < bytes.len() && spec_session_text(bytes)[i] == '?' ==> bytes[i] == 0x3f,
{
    assert forall|i: int| 0 <= i < bytes.len() implies spec_session_text(bytes)[i] == bytes[i]
        as char by {
        assert(spec_printable(bytes[i]));
    }
}

/// A buffer whose one non-printable byte sits at position `j` renders
/// with exactly one substituted placeholder, at that position; every
/// other position reproduces its byte.
pub proof fn lemma_session_text_single_substitution(bytes: Seq<u8>, j: int)
    requires
        0 <= j < bytes.len(),
        !spec_printable(bytes[j]),
        forall|i: int| 0 <= i < bytes.len() && i != j ==> 0x20 <= #[trigger] bytes[i] <= 0x7e,
    ensures
        spec_session_text(bytes).len() == bytes.len(),
        spec_session_text(bytes)[j] == '?',
        forall|i: int|
            0 <= i < bytes.len() && i != j ==> spec_session_text(bytes)[i] == bytes[i] as char,
{
    assert forall|i: int| 0 <= i < bytes.len() && i != j implies spec_session_text(bytes)[i]
        == bytes[i] as char by {
        assert(spec_printable(bytes[i]));
    }
}

impl SessionInfo {
    /// Extracts the session text located by the header: the byte range
    /// starts one before the stated offset, a convention of the format's
    /// offset encoding that is preserved as observed, and runs for
    /// `length` bytes past the stated offset.
    pub fn from_buffer(buf: &Vec<u8>, offset: u32, length: u32) -> (text: String)
        requires
            offset >= 1,
            offset as int + length as int <= u32::MAX as int,
            offset as int + length as int <= buf.len(),
        ensures
            text@ == spec_session_text(
                buf@.subrange(offset as int - 1, offset as int + length as int),
            ),
    {
        let start: usize = (offset - 1) as usize;
        let end: usize = (offset + length) as usize;
        let mut output = String::new();
        let mut i: usize = start;
        while i < end
            invariant
                start <= i <= end,
                end <= buf@.len(),
                output@ == spec_session_text(buf@.subrange(start as int, i as int)),
            decreases end - i,
        {
            let byte = buf[i];
            if 0x20 <= byte && byte <= 0x7e {
                push_char(&mut output, byte as char);
            } else {
                push_char(&mut output, '?');
            }
            proof {
                assert(buf@.subrange(start as int, i as int + 1) =~= buf@.subrange(
                    start as int,
                    i as int,
                ).push(buf@[i as int]));
                assert(spec_session_text(buf@.subrange(start as int, i as int + 1))
                    =~= spec_session_text(buf@.subrange(start as int, i as int)).push(
                    spec_session_char(buf@[i as int]),
                ));
            }
            i = i + 1;
        }
        proof {
            assert(buf@.subrange(start as int, end as int) == buf@.subrange(
                offset as int - 1,
                offset as int + length as int,
            ));
        }
        output
    }
}

} // verus!
