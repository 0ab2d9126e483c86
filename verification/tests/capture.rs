//! End-to-end tests over synthetic capture files: the orchestrator, the
//! random-access sampler, sequential reads and bulk extraction.

use iracing_telemetry::metric_headers::{ChannelData, VariableHeader};
use iracing_telemetry::telemetry::{load_telemetry, Telemetry, TelemetryError};
use iracing_telemetry::telemetry_sample::{find_entry, TelemetrySampler};

const SESSION_TEXT: &str = "WeekendInfo: TrackDisplayName: Test Ring";
const RECORD_LEN: u32 = 8;

fn word(buf: &mut [u8], pos: usize, value: u32) {
    buf[pos..pos + 4].copy_from_slice(&value.to_le_bytes());
}

fn make_descriptor(var_type: u32, offset: u32, name: &str, unit: &str) -> Vec<u8> {
    let mut d = vec![0u8; 144];
    word(&mut d, 0, var_type);
    word(&mut d, 4, offset);
    word(&mut d, 8, 1);
    d[16..16 + name.len()].copy_from_slice(name.as_bytes());
    d[112..112 + unit.len()].copy_from_slice(unit.as_bytes());
    d
}

/// A capture with a sentinel descriptor slot plus the channels given, the
/// session text, and one 8-byte record per (tick, speed) pair.
fn make_capture(channels: &[(u32, u32, &str, &str)], records: &[(u32, f32)]) -> Vec<u8> {
    let session_pos: usize = 112;
    let table_pos: usize = session_pos + SESSION_TEXT.len();
    let num_vars: u32 = (channels.len() + 1) as u32;
    let buf_offset: usize = table_pos + 144 * num_vars as usize;

    let mut file = vec![0u8; 112];
    word(&mut file, 0, 2); // version
    word(&mut file, 4, 1); // status
    word(&mut file, 8, 60); // tick rate
    word(&mut file, 12, 0); // session info update
    // The reader takes bytes [offset - 1, offset + length), so the stated
    // offset is one past the block's first byte and the stated length one
    // short of its size.
    word(&mut file, 16, (session_pos + 1) as u32);
    word(&mut file, 20, (SESSION_TEXT.len() - 1) as u32);
    word(&mut file, 24, num_vars);
    word(&mut file, 28, table_pos as u32);
    word(&mut file, 32, 1); // num buf
    word(&mut file, 36, RECORD_LEN); // sample buf len
    word(&mut file, 52, buf_offset as u32); // buf offset (word 13)
    word(&mut file, 56, 3); // metadata lap count

    file.extend_from_slice(SESSION_TEXT.as_bytes());
    file.extend_from_slice(&vec![0u8; 144]); // sentinel slot
    for (var_type, offset, name, unit) in channels {
        file.extend_from_slice(&make_descriptor(*var_type, *offset, name, unit));
    }
    assert_eq!(file.len(), buf_offset);
    for (tick, speed) in records {
        file.extend_from_slice(&tick.to_le_bytes());
        file.extend_from_slice(&speed.to_le_bytes());
    }
    file
}

fn standard_channels() -> Vec<(u32, u32, &'static str, &'static str)> {
    vec![(2, 0, "SessionTick", "count"), (4, 4, "Speed", "m/s")]
}

fn load_standard(records: &[(u32, f32)]) -> Telemetry {
    let file = make_capture(&standard_channels(), records);
    load_telemetry(String::from("capture.ibt"), &file).unwrap()
}

#[test]
fn load_telemetry_composes_whole_capture() {
    let file = make_capture(&standard_channels(), &[(0, 1.5), (1, 2.5)]);
    let telemetry = load_telemetry(String::from("capture.ibt"), &file).unwrap();

    assert_eq!(telemetry.header.version, 2);
    assert_eq!(telemetry.header.num_vars, 3);
    assert_eq!(telemetry.header.sample_buf_len, RECORD_LEN);
    assert_eq!(telemetry.session, SESSION_TEXT);
    // Metadata shares bytes with header words: its first field reads the
    // word at byte 32, the buffer count.
    assert_eq!(telemetry.metadata.start_date, 1);
    assert_eq!(telemetry.metadata.record_count, 0);

    assert_eq!(telemetry.sampler.sample_count, 0);
    assert_eq!(telemetry.sampler.variable_buf_len, RECORD_LEN);
    assert_eq!(telemetry.sampler.header_offset, telemetry.header.buf_offset);
    assert_eq!(telemetry.sampler.file, "capture.ibt");
    assert_eq!(telemetry.sampler.headers.len(), 2);
    assert_eq!(telemetry.sampler.headers[0].name, "SessionTick");
    assert_eq!(telemetry.sampler.headers[1].name, "Speed");
    assert!(telemetry.sampler.headers_fit_check());
}

#[test]
fn load_telemetry_accepts_minimal_file() {
    // A bare 112-byte header with no variables and an empty-length
    // session block still decodes: the session reader takes the one byte
    // before the stated offset.
    let mut file = vec![0u8; 112];
    word(&mut file, 0, 65); // version; its low byte is also session text
    word(&mut file, 16, 1); // session info offset
    word(&mut file, 20, 0); // session info length
    let telemetry = load_telemetry(String::from("x"), &file).unwrap();
    assert_eq!(telemetry.session, "A");
    assert_eq!(telemetry.sampler.headers.len(), 0);
    assert_eq!(telemetry.sampler.variable_buf_len, 0);
    // With no channels, every record decodes to the empty mapping.
    assert_eq!(telemetry.sampler.get_record(&file, 0).len(), 0);
}

#[test]
fn load_telemetry_rejects_short_file() {
    let file = vec![0u8; 111];
    let result = load_telemetry(String::from("x"), &file);
    assert_eq!(result.unwrap_err(), TelemetryError::FileTooShort);
}

#[test]
fn load_telemetry_rejects_zero_session_offset() {
    let mut file = make_capture(&standard_channels(), &[]);
    word(&mut file, 16, 0);
    let result = load_telemetry(String::from("x"), &file);
    assert_eq!(result.unwrap_err(), TelemetryError::SessionInfoOutOfRange);
}

#[test]
fn load_telemetry_rejects_session_past_end() {
    let mut file = make_capture(&standard_channels(), &[]);
    let session_length = file.len() as u32;
    word(&mut file, 20, session_length);
    let result = load_telemetry(String::from("x"), &file);
    assert_eq!(result.unwrap_err(), TelemetryError::SessionInfoOutOfRange);
}

#[test]
fn load_telemetry_rejects_table_past_end() {
    let mut file = make_capture(&standard_channels(), &[]);
    word(&mut file, 24, 1000); // num vars far beyond the file
    let result = load_telemetry(String::from("x"), &file);
    assert_eq!(result.unwrap_err(), TelemetryError::VariableTableOutOfRange);
}

#[test]
fn get_record_decodes_requested_index() {
    let file = make_capture(&standard_channels(), &[(10, 1.5), (11, 99.5)]);
    let telemetry = load_telemetry(String::from("x"), &file).unwrap();
    let sample = telemetry.sampler.get_record(&file, 1);
    assert_eq!(sample.len(), 2);
    assert_eq!(sample[0].0, "SessionTick");
    assert_eq!(sample[0].1.data, ChannelData::Word(11));
    assert_eq!(sample[0].1.unit, "count");
    assert_eq!(sample[0].1.data_type, 2);
    assert_eq!(sample[1].0, "Speed");
    assert_eq!(sample[1].1.data, ChannelData::FloatBits(99.5f32.to_bits()));
    assert_eq!(sample[1].1.unit, "m/s");
    assert_eq!(sample[1].1.data_type, 4);
}

#[test]
fn get_record_past_end_is_empty_not_error() {
    let file = make_capture(&standard_channels(), &[(0, 1.0), (1, 2.0), (2, 3.0)]);
    let telemetry = load_telemetry(String::from("x"), &file).unwrap();
    assert_eq!(telemetry.sampler.get_record(&file, 2).len(), 2);
    assert_eq!(telemetry.sampler.get_record(&file, 3).len(), 0);
    assert_eq!(telemetry.sampler.get_record(&file, 100).len(), 0);
    assert_eq!(telemetry.sampler.get_record(&file, u32::MAX).len(), 0);
}

#[test]
fn get_record_short_read_is_empty() {
    // A record only partially inside the file is a short read: end of
    // data, not an error.
    let mut file = make_capture(&standard_channels(), &[(0, 1.0), (1, 2.0)]);
    file.truncate(file.len() - 4);
    let telemetry = load_telemetry(String::from("x"), &file).unwrap();
    assert_eq!(telemetry.sampler.get_record(&file, 0).len(), 2);
    assert_eq!(telemetry.sampler.get_record(&file, 1).len(), 0);
}

#[test]
fn read_all_samples_of_empty_region_is_empty() {
    let file = make_capture(&standard_channels(), &[]);
    let mut telemetry = load_telemetry(String::from("x"), &file).unwrap();
    let all = telemetry.sampler.read_all_samples(&file);
    assert_eq!(all.len(), 0);
    assert_eq!(telemetry.sampler.sample_count, 1);
}

#[test]
fn get_record_twice_returns_identical_mappings() {
    let file = make_capture(&standard_channels(), &[(5, 4.5), (6, 5.5)]);
    let telemetry = load_telemetry(String::from("x"), &file).unwrap();
    let first = telemetry.sampler.get_record(&file, 1);
    let second = telemetry.sampler.get_record(&file, 1);
    assert_eq!(first, second);
}

#[test]
fn read_next_sample_advances_cursor() {
    let file = make_capture(&standard_channels(), &[(0, 1.0), (1, 2.0)]);
    let mut telemetry = load_telemetry(String::from("x"), &file).unwrap();
    let first = telemetry.sampler.read_next_sample(&file);
    assert_eq!(telemetry.sampler.sample_count, 1);
    assert_eq!(first[0].1.data, ChannelData::Word(0));
    let second = telemetry.sampler.read_next_sample(&file);
    assert_eq!(telemetry.sampler.sample_count, 2);
    assert_eq!(second[0].1.data, ChannelData::Word(1));
    let third = telemetry.sampler.read_next_sample(&file);
    assert_eq!(third.len(), 0);
}

#[test]
fn read_all_samples_keys_three_records_by_tick() {
    let file = make_capture(&standard_channels(), &[(0, 1.5), (1, 2.5), (2, 3.5)]);
    let mut telemetry = load_telemetry(String::from("x"), &file).unwrap();
    let all = telemetry.sampler.read_all_samples(&file);
    assert_eq!(all.len(), 3);
    for (i, (key, sample)) in all.iter().enumerate() {
        assert_eq!(*key, i.to_string());
        // Every declared channel appears in every record.
        assert_eq!(sample.len(), 2);
        assert_eq!(sample[0].0, "SessionTick");
        assert_eq!(sample[0].1.data, ChannelData::Word(i as u32));
        assert_eq!(sample[1].0, "Speed");
        assert_eq!(sample[1].1.data, ChannelData::FloatBits((1.5f32 + i as f32).to_bits()));
    }
    // The cursor sits one past the last record: the read that signalled
    // the end also counted.
    assert_eq!(telemetry.sampler.sample_count, 4);
}

#[test]
fn read_all_samples_drops_records_without_identity() {
    let channels = vec![(2u32, 0u32, "Gear", "n"), (4u32, 4u32, "Speed", "m/s")];
    let file = make_capture(&channels, &[(3, 1.0), (4, 2.0)]);
    let mut telemetry = load_telemetry(String::from("x"), &file).unwrap();
    let all = telemetry.sampler.read_all_samples(&file);
    assert_eq!(all.len(), 0);
    assert_eq!(telemetry.sampler.sample_count, 3);
}

#[test]
fn find_entry_takes_last_duplicate() {
    let file = make_capture(
        &[(2, 0, "SessionTick", "count"), (3, 4, "SessionTick", "count")],
        &[],
    );
    let telemetry = load_telemetry(String::from("x"), &file).unwrap();
    let mut record = 41u32.to_le_bytes().to_vec();
    record.extend_from_slice(&42u32.to_le_bytes());
    let sample = telemetry.sampler.decode_record(&record);
    let found = find_entry(&sample, &String::from("SessionTick"));
    assert_eq!(found, Some(1));
    assert_eq!(sample[1].1.data, ChannelData::Word(42));
    assert_eq!(find_entry(&sample, &String::from("Speed")), None);
}

#[test]
fn create_read_vec_is_zeroed_to_length() {
    let buffer = TelemetrySampler::create_read_vec(24);
    assert_eq!(buffer.len(), 24);
    assert!(buffer.iter().all(|byte| *byte == 0));
    assert_eq!(TelemetrySampler::create_read_vec(0).len(), 0);
}

#[test]
fn headers_fit_check_spots_overflowing_channel() {
    let fits = TelemetrySampler::new(
        String::from("x"),
        0,
        8,
        vec![VariableHeader {
            var_type: 5,
            offset: 0,
            count: 1,
            count_as_time: 0,
            name: String::from("a"),
            description: String::new(),
            unit: String::new(),
        }],
    );
    assert!(fits.headers_fit_check());
    let overflows = TelemetrySampler::new(
        String::from("x"),
        0,
        8,
        vec![VariableHeader {
            var_type: 5,
            offset: 1,
            count: 1,
            count_as_time: 0,
            name: String::from("a"),
            description: String::new(),
            unit: String::new(),
        }],
    );
    assert!(!overflows.headers_fit_check());
}
