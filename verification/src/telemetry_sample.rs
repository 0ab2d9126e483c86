//! Random access into the sample region: one fixed-length record per
//! simulation tick, decoded on demand into named, typed channel values.

use vstd::prelude::*;

verus! {

use vstd::slice::{slice_subrange, slice_to_vec};
use crate::metric_headers::{
    spec_channel_data_matches,
    spec_channel_render,
    spec_le32_at,
    spec_parse_string,
    spec_type_width,
    ChannelData,
    VariableHeader,
};
use crate::text::spec_decimal;

/// One decoded channel value of one sample record: the value, the
/// channel's unit, and the wire type tag it was decoded under.
#[derive(Debug, Clone, PartialEq)]
pub struct TelemetryValue {
    pub data: ChannelData,
    pub unit: String,
    pub data_type: u32,
}

/// Decodes sample records out of the sample region. The sampler holds
/// the path of the capture it was built from, where the sample region
/// starts, how long each record is, the decoded variable definitions,
/// and a cursor used only by the sequential read path. It never reads
/// the file itself: callers hand it the bytes, so that a caller may
/// keep the whole file in memory or fetch one record at a time.
#[derive(Debug)]
pub struct TelemetrySampler {
    pub sample_count: u32,
    pub headers: Vec<VariableHeader>,
    pub header_offset: u32,
    pub variable_buf_len: u32,
    pub file: String,
}

/// One decoded record: channel name to value, in variable table order.
/// Callers must tolerate duplicate names; no uniqueness is enforced.
pub type DecodedSample = Vec<(String, TelemetryValue)>;

/// Where record `index` starts in the file.
pub open spec fn spec_record_start(s: TelemetrySampler, index: int) -> int {
    s.header_offset as int + index * s.variable_buf_len as int
}

/// Whether the file bytes hold all of record `index`. A record is valid
/// only when a full `variable_buf_len`-byte read of it succeeds.
pub open spec fn spec_record_available(s: TelemetrySampler, data: Seq<u8>, index: int) -> bool {
    spec_record_start(s, index) + s.variable_buf_len as int <= data.len()
}

/// The bytes of record `index`.
pub open spec fn spec_record_bytes(s: TelemetrySampler, data: Seq<u8>, index: int) -> Seq<u8> {
    data.subrange(
        spec_record_start(s, index),
        spec_record_start(s, index) + s.variable_buf_len as int,
    )
}

/// Whether decoding record `index` yields a non-empty mapping: the
/// record must be fully available and there must be channels to decode.
pub open spec fn spec_record_nonempty(s: TelemetrySampler, data: Seq<u8>, index: int) -> bool {
    spec_record_available(s, data, index) && s.headers@.len() > 0
}

/// What one decoded entry holds for its variable definition: the
/// channel's name and unit, its type tag, and the value decoded from the
/// record bytes at the definition's offset.
pub open spec fn spec_value_matches(
    value: TelemetryValue,
    header: VariableHeader,
    record: Seq<u8>,
) -> bool {
    &&& value.data_type == header.var_type
    &&& value.unit@ == header.unit@
    &&& spec_channel_data_matches(value.data, record, header.offset as int, header.var_type)
}

/// What decoding one full record yields: one entry per variable
/// definition, in table order.
pub open spec fn spec_sample_matches(
    sample: Seq<(String, TelemetryValue)>,
    headers: Seq<VariableHeader>,
    record: Seq<u8>,
) -> bool {
    &&& sample.len() == headers.len()
    &&& forall|i: int|
        0 <= i < headers.len() ==> (#[trigger] sample[i]).0@ == headers[i].name@
            && spec_value_matches(sample[i].1, headers[i], record)
}

/// The full contract of a random-access record read: a short read — the
/// record not fully inside the file — yields the empty mapping, the
/// canonical end-of-data signal and never an error; a full read yields
/// the decode of exactly the record's bytes.
pub open spec fn spec_get_record_post(
    s: TelemetrySampler,
    data: Seq<u8>,
    index: u32,
    sample: Seq<(String, TelemetryValue)>,
) -> bool {
    if spec_record_available(s, data, index as int) {
        spec_sample_matches(sample, s.headers@, spec_record_bytes(s, data, index as int))
    } else {
        sample.len() == 0
    }
}

/// Whether two channel values are the same value: equal outright, with
/// text compared by its characters.
pub open spec fn spec_channel_data_like(a: ChannelData, b: ChannelData) -> bool {
    match (a, b) {
        (ChannelData::Text(x), ChannelData::Text(y)) => x@ == y@,
        _ => a == b,
    }
}

impl TelemetrySampler {
    /// Every variable definition reads only bytes inside one record:
    /// its offset plus its type's width stays within the record length.
    /// The parsers do not enforce this; callers check it once, before
    /// the first record is decoded.
    pub open spec fn headers_fit(&self) -> bool {
        forall|i: int|
            0 <= i < self.headers@.len() ==> (#[trigger] self.headers@[i]).offset as int
                + spec_type_width(self.headers@[i].var_type) <= self.variable_buf_len as int
    }

    /// Decides `headers_fit` for callers outside the proof world.
    pub fn headers_fit_check(&self) -> (fit: bool)
        ensures
            fit == self.headers_fit(),
    {
        let mut i: usize = 0;
        while i < self.headers.len()
            invariant
                i <= self.headers@.len(),
                forall|j: int|
                    0 <= j < i ==> (#[trigger] self.headers@[j]).offset as int + spec_type_width(
                        self.headers@[j].var_type,
                    ) <= self.variable_buf_len as int,
            decreases self.headers@.len() - i,
        {
            let header = &self.headers[i];
            let width: u64 = if header.var_type == 0 || header.var_type == 1 {
                1
            } else if header.var_type == 2 || header.var_type == 3 || header.var_type == 4 {
                4
            } else if header.var_type == 5 {
                8
            } else {
                0
            };
            if header.offset as u64 + width > self.variable_buf_len as u64 {
                return false;
            }
            i = i + 1;
        }
        true
    }

    /// Builds a sampler over the sample region of one capture.
    pub fn new(
        file: String,
        header_offset: u32,
        variable_buffer_size: u32,
        headers: Vec<VariableHeader>,
    ) -> (sampler: TelemetrySampler)
        ensures
            sampler.sample_count == 0,
            sampler.headers == headers,
            sampler.header_offset == header_offset,
            sampler.variable_buf_len == variable_buffer_size,
            sampler.file == file,
    {
        TelemetrySampler {
            sample_count: 0,
            headers,
            file,
            header_offset,
            variable_buf_len: variable_buffer_size,
        }
    }

    /// Decodes the bytes of one full record into its channel values.
    pub fn decode_record(&self, record: &Vec<u8>) -> (sample: DecodedSample)
        requires
            self.headers_fit(),
            record.len() == self.variable_buf_len,
        ensures
            spec_sample_matches(sample@, self.headers@, record@),
    {
        let mut sample: DecodedSample = Vec::new();
        let mut i: usize = 0;
        while i < self.headers.len()
            invariant
                self.headers_fit(),
                record.len() == self.variable_buf_len,
                i <= self.headers@.len(),
                sample@.len() == i,
                forall|j: int|
                    0 <= j < i ==> (#[trigger] sample@[j]).0@ == self.headers@[j].name@
                        && spec_value_matches(sample@[j].1, self.headers@[j], record@),
            decreases self.headers@.len() - i,
        {
            let header = &self.headers[i];
            let value = TelemetryValue {
                data_type: header.var_type,
                unit: header.unit.clone(),
                data: header.parse_binary_to_value(record),
            };
            sample.push((header.name.clone(), value));
            i = i + 1;
        }
        sample
    }

    /// Where record `index` starts in the file: the sample region's
    /// offset plus `index` whole records. The widening to 64 bits keeps
    /// the offset arithmetic exact for every index.
    pub fn record_start(&self, index: u32) -> (pos: u64)
        ensures
            pos as int == spec_record_start(*self, index as int),
    {
        proof {
            assert((index as int) * (self.variable_buf_len as int) <= 0xffff_ffff * 0xffff_ffff)
                by (nonlinear_arith)
                requires
                    0 <= index as int <= 0xffff_ffff,
                    0 <= self.variable_buf_len as int <= 0xffff_ffff,
            ;
        }
        self.header_offset as u64 + (index as u64) * (self.variable_buf_len as u64)
    }

    /// Reads record `index` out of the file bytes: the record starts at
    /// `header_offset + index * variable_buf_len`. A record that is not
    /// fully inside the bytes — any index at or past the end of the
    /// data — yields the empty mapping, never an error.
    pub fn get_record(&self, data: &Vec<u8>, index: u32) -> (sample: DecodedSample)
        requires
            self.headers_fit(),
        ensures
            spec_get_record_post(*self, data@, index, sample@),
            !spec_record_available(*self, data@, index as int) ==> sample@.len() == 0,
    {
        let size_u64 = self.variable_buf_len as u64;
        let read_start = self.record_start(index);
        let data_len = data.len() as u64;
        if read_start > data_len || size_u64 > data_len - read_start {
            let sample: DecodedSample = Vec::new();
            return sample;
        }
        let start = read_start as usize;
        let size = self.variable_buf_len as usize;
        let record = slice_to_vec(slice_subrange(data.as_slice(), start, start + size));
        self.decode_record(&record)
    }

    /// Reads the record at the sequential cursor, then moves the cursor
    /// one tick forward. Intended for strictly sequential consumption.
    pub fn read_next_sample(&mut self, data: &Vec<u8>) -> (sample: DecodedSample)
        requires
            old(self).headers_fit(),
            old(self).sample_count < u32::MAX,
        ensures
            final(self).sample_count == old(self).sample_count + 1,
            final(self).headers == old(self).headers,
            final(self).header_offset == old(self).header_offset,
            final(self).variable_buf_len == old(self).variable_buf_len,
            final(self).file == old(self).file,
            spec_get_record_post(*old(self), data@, old(self).sample_count, sample@),
    {
        let sample = self.get_record(data, self.sample_count);
        self.sample_count = self.sample_count + 1;
        sample
    }

    /// Reads records sequentially from the cursor until the first empty
    /// mapping — the end-of-data signal — and collects each decoded
    /// record keyed by its identity channel, the tick counter named
    /// "SessionTick". A non-empty record without that channel is dropped,
    /// not inserted; so is one whose identity value is floating-point,
    /// which only a caller that interprets IEEE-754 bits could render.
    /// The two bounds among the preconditions keep the cursor inside its
    /// type: without them the scan would run past every counter.
    pub fn read_all_samples(&mut self, data: &Vec<u8>) -> (output: Vec<(String, DecodedSample)>)
        requires
            old(self).headers_fit(),
            old(self).sample_count < u32::MAX,
            old(self).variable_buf_len == 0 ==> old(self).headers@.len() == 0,
            old(self).variable_buf_len > 0 ==> data@.len() < old(self).header_offset as int + old(
                self,
            ).variable_buf_len as int * (u32::MAX as int),
        ensures
            final(self).headers == old(self).headers,
            final(self).header_offset == old(self).header_offset,
            final(self).variable_buf_len == old(self).variable_buf_len,
            final(self).file == old(self).file,
            old(self).sample_count < final(self).sample_count,
            !spec_record_nonempty(*old(self), data@, final(self).sample_count - 1),
            forall|i: int|
                old(self).sample_count <= i < final(self).sample_count - 1
                    ==> spec_record_nonempty(*old(self), data@, i),
            spec_collect_matches(
                *old(self),
                data@,
                old(self).sample_count as int,
                final(self).sample_count - 1,
                output@,
            ),
    {
        let mut output: Vec<(String, DecodedSample)> = Vec::new();
        let key_name: String = "SessionTick".to_owned();
        let mut done = false;
        while !done
            invariant
                self.headers == old(self).headers,
                self.header_offset == old(self).header_offset,
                self.variable_buf_len == old(self).variable_buf_len,
                self.file == old(self).file,
                self.headers_fit(),
                key_name@ == "SessionTick"@,
                old(self).sample_count <= self.sample_count,
                old(self).variable_buf_len == 0 ==> old(self).headers@.len() == 0,
                old(self).variable_buf_len > 0 ==> data@.len() < old(self).header_offset as int
                    + old(self).variable_buf_len as int * (u32::MAX as int),
                !done ==> self.sample_count < u32::MAX,
                !done ==> (forall|i: int|
                    old(self).sample_count <= i < self.sample_count ==> spec_record_nonempty(
                        *old(self),
                        data@,
                        i,
                    )),
                !done ==> spec_collect_matches(
                    *old(self),
                    data@,
                    old(self).sample_count as int,
                    self.sample_count as int,
                    output@,
                ),
                done ==> old(self).sample_count < self.sample_count,
                done ==> !spec_record_nonempty(*old(self), data@, self.sample_count - 1),
                done ==> (forall|i: int|
                    old(self).sample_count <= i < self.sample_count - 1 ==> spec_record_nonempty(
                        *old(self),
                        data@,
                        i,
                    )),
                done ==> spec_collect_matches(
                    *old(self),
                    data@,
                    old(self).sample_count as int,
                    self.sample_count - 1,
                    output@,
                ),
            decreases u32::MAX as int - self.sample_count as int + (if done {
                0int
            } else {
                1int
            }),
        {
            let ghost prev = *self;
            let next_sample = self.read_next_sample(data);
            proof {
                assert(spec_record_available(prev, data@, prev.sample_count as int)
                    == spec_record_available(*old(self), data@, prev.sample_count as int));
                assert(spec_record_bytes(prev, data@, prev.sample_count as int)
                    == spec_record_bytes(*old(self), data@, prev.sample_count as int));
            }
            if next_sample.len() > 0 {
                let ghost record = spec_record_bytes(*old(self), data@, prev.sample_count as int);
                proof {
                    assert(spec_record_available(*old(self), data@, prev.sample_count as int));
                    assert(spec_sample_matches(next_sample@, old(self).headers@, record));
                    assert(self.headers@.len() > 0);
                    assert(spec_record_nonempty(*old(self), data@, prev.sample_count as int));
                    // The scan is still inside the index type: the record
                    // just read fits before the end of the data, and the
                    // data ends before record u32::MAX could start.
                    assert(old(self).variable_buf_len > 0);
                    let off = old(self).header_offset as int;
                    let size = old(self).variable_buf_len as int;
                    let cursor = prev.sample_count as int;
                    let len = data@.len() as int;
                    assert(cursor + 1 < u32::MAX as int) by (nonlinear_arith)
                        requires
                            size > 0,
                            off + cursor * size + size <= len,
                            len < off + size * (u32::MAX as int),
                    ;
                    lemma_last_named_props(old(self).headers@, "SessionTick"@);
                }
                let found = find_entry(&next_sample, &key_name);
                match found {
                    None => {
                        proof {
                            let r = spec_last_named(old(self).headers@, "SessionTick"@);
                            if r >= 0 {
                                assert(next_sample@[r].0@ == "SessionTick"@);
                                assert(false);
                            }
                            lemma_collect_snoc(
                                *old(self),
                                data@,
                                old(self).sample_count as int,
                                prev.sample_count as int,
                                output@,
                                arbitrary(),
                            );
                        }
                    },
                    Some(j) => {
                        proof {
                            let r = spec_last_named(old(self).headers@, "SessionTick"@);
                            assert(next_sample@[j as int].0@ == old(self).headers@[
                                j as int
                            ].name@);
                            if r < 0 {
                                assert(false);
                            }
                            if r < j {
                                assert(old(self).headers@[j as int].name@ != "SessionTick"@);
                                assert(false);
                            }
                            if r > j {
                                assert(next_sample@[r].0@ == old(self).headers@[r].name@);
                                assert(next_sample@[r].0@ != "SessionTick"@);
                                assert(false);
                            }
                            assert(spec_value_matches(
                                next_sample@[j as int].1,
                                old(self).headers@[j as int],
                                record,
                            ));
                        }
                        let entry = &next_sample[j];
                        let rendered = entry.1.data.render();
                        proof {
                            let header = old(self).headers@[j as int];
                            assert(spec_channel_render(next_sample@[j as int].1.data)
                                == spec_render_channel(
                                record,
                                header.offset as int,
                                header.var_type,
                            ));
                        }
                        match rendered {
                            None => {
                                proof {
                                    lemma_collect_snoc(
                                        *old(self),
                                        data@,
                                        old(self).sample_count as int,
                                        prev.sample_count as int,
                                        output@,
                                        arbitrary(),
                                    );
                                }
                            },
                            Some(key) => {
                                proof {
                                    lemma_collect_snoc(
                                        *old(self),
                                        data@,
                                        old(self).sample_count as int,
                                        prev.sample_count as int,
                                        output@,
                                        (key, next_sample),
                                    );
                                }
                                output.push((key, next_sample));
                            },
                        }
                    },
                }
            } else {
                proof {
                    if spec_record_nonempty(*old(self), data@, prev.sample_count as int) {
                        assert(spec_sample_matches(next_sample@, old(self).headers@,
                        spec_record_bytes(*old(self), data@, prev.sample_count as int)));
                        assert(false);
                    }
                }
                done = true;
            }
        }
        output
    }

    /// A zeroed buffer of the given length, for callers that read one
    /// record at a time into a reusable buffer.
    pub fn create_read_vec(capacity: usize) -> (buffer: Vec<u8>)
        ensures
            buffer@.len() == capacity,
            forall|i: int| 0 <= i < capacity ==> buffer@[i] == 0,
    {
        let mut buffer: Vec<u8> = Vec::new();
        let mut i: usize = 0;
        while i < capacity
            invariant
                i <= capacity,
                buffer@.len() == i,
                forall|j: int| 0 <= j < i ==> buffer@[j] == 0,
            decreases capacity - i,
        {
            buffer.push(0);
            i = i + 1;
        }
        buffer
    }
}

/// The position of the last variable definition bearing `name`, or -1
/// when none does. The last one counts, matching how a mapping filled in
/// table order resolves a duplicated channel name.
pub open spec fn spec_last_named(headers: Seq<VariableHeader>, name: Seq<char>) -> int
    decreases headers.len(),
{
    if headers.len() == 0 {
        -1
    } else if headers.last().name@ == name {
        headers.len() - 1
    } else {
        spec_last_named(headers.drop_last(), name)
    }
}

/// `spec_last_named` points at a definition bearing the name, with none
/// after it; and at -1 only when no definition bears the name.
pub proof fn lemma_last_named_props(headers: Seq<VariableHeader>, name: Seq<char>)
    ensures
        -1 <= spec_last_named(headers, name) < headers.len(),
        spec_last_named(headers, name) >= 0 ==> headers[spec_last_named(headers, name)].name@
            == name,
        forall|l: int|
            spec_last_named(headers, name) < l < headers.len() ==> (#[trigger] headers[l]).name@
                != name,
    decreases headers.len(),
{
    if headers.len() > 0 && headers.last().name@ != name {
        lemma_last_named_props(headers.drop_last(), name);
        assert forall|l: int|
            spec_last_named(headers, name) < l < headers.len() implies (#[trigger] headers[l]).name@
            != name by {
            if l < headers.len() - 1 {
                assert(headers.drop_last()[l] == headers[l]);
            }
        }
    }
}

/// Looks an entry up by channel name in a decoded sample: the last entry
/// bearing the name, matching how a map filled by insertion resolves
/// duplicates. `None` exactly when no entry bears the name.
pub fn find_entry(sample: &DecodedSample, name: &String) -> (found: Option<usize>)
    ensures
        match found {
            Some(j) => j < sample@.len() && sample@[j as int].0@ == name@ && (forall|l: int|
                j < l < sample@.len() ==> (#[trigger] sample@[l]).0@ != name@),
            None => forall|l: int| 0 <= l < sample@.len() ==> (#[trigger] sample@[l]).0@ != name@,
        },
{
    let mut j = sample.len();
    while j > 0
        invariant
            j <= sample@.len(),
            forall|l: int| j <= l < sample@.len() ==> (#[trigger] sample@[l]).0@ != name@,
        decreases j,
    {
        j = j - 1;
        let entry = &sample[j];
        if entry.0 == *name {
            return Some(j);
        }
    }
    None
}

/// What the channel at `offset` with tag `var_type` renders to, straight
/// from the record bytes: the same rendering as `spec_channel_render`,
/// stated over the wire form.
pub open spec fn spec_render_channel(record: Seq<u8>, offset: int, var_type: u32) -> Option<
    Seq<char>,
> {
    if var_type == 0 {
        Some(spec_parse_string(record.subrange(offset, offset + 1)))
    } else if var_type == 1 {
        Some(spec_decimal(record[offset] as nat))
    } else if var_type == 2 || var_type == 3 {
        Some(spec_decimal(spec_le32_at(record, offset) as nat))
    } else if var_type == 4 || var_type == 5 {
        None
    } else {
        Some(Seq::empty())
    }
}

/// The key that the bulk extractor files one record under: the rendered
/// value of the last channel named "SessionTick", when that channel
/// exists and its value renders within the library.
pub open spec fn spec_identity_key(headers: Seq<VariableHeader>, record: Seq<u8>) -> Option<
    Seq<char>,
> {
    let j = spec_last_named(headers, "SessionTick"@);
    if j < 0 {
        None
    } else {
        spec_render_channel(record, headers[j].offset as int, headers[j].var_type)
    }
}

/// How the bulk extractor accumulates records `from` (inclusive) up to
/// `to` (exclusive): each record with an identity key contributes one
/// entry in order, keyed by the rendered identity value; a record
/// without one is dropped.
pub open spec fn spec_collect_matches(
    s: TelemetrySampler,
    data: Seq<u8>,
    from: int,
    to: int,
    out: Seq<(String, DecodedSample)>,
) -> bool
    decreases to - from,
{
    if from >= to {
        out.len() == 0
    } else {
        match spec_identity_key(s.headers@, spec_record_bytes(s, data, from)) {
            None => spec_collect_matches(s, data, from + 1, to, out),
            Some(key) => out.len() >= 1 && out[0].0@ == key && spec_sample_matches(
                out[0].1@,
                s.headers@,
                spec_record_bytes(s, data, from),
            ) && spec_collect_matches(s, data, from + 1, to, out.drop_first()),
        }
    }
}

/// Extending an accumulation by the record at `mid`: a keyed record goes
/// on at the end, a keyless one changes nothing.
proof fn lemma_collect_snoc(
    s: TelemetrySampler,
    data: Seq<u8>,
    from: int,
    mid: int,
    out: Seq<(String, DecodedSample)>,
    entry: (String, DecodedSample),
)
    requires
        from <= mid,
        spec_collect_matches(s, data, from, mid, out),
        spec_identity_key(s.headers@, spec_record_bytes(s, data, mid)) matches Some(key) ==> (
        entry.0@ == key && spec_sample_matches(
            entry.1@,
            s.headers@,
            spec_record_bytes(s, data, mid),
        )),
    ensures
        spec_identity_key(s.headers@, spec_record_bytes(s, data, mid)) is Some
            ==> spec_collect_matches(s, data, from, mid + 1, out.push(entry)),
        spec_identity_key(s.headers@, spec_record_bytes(s, data, mid)) is None
            ==> spec_collect_matches(s, data, from, mid + 1, out),
    decreases mid - from,
{
    if from == mid {
        if spec_identity_key(s.headers@, spec_record_bytes(s, data, mid)) is Some {
            let out2 = out.push(entry);
            assert(out2[0] == entry);
            assert(out2.drop_first() =~= Seq::<(String, DecodedSample)>::empty());
            assert(spec_collect_matches(s, data, mid + 1, mid + 1, out2.drop_first()));
            assert(spec_collect_matches(s, data, from, mid + 1, out2));
        } else {
            assert(spec_collect_matches(s, data, mid + 1, mid + 1, out));
            assert(spec_collect_matches(s, data, from, mid + 1, out));
        }
    } else {
        match spec_identity_key(s.headers@, spec_record_bytes(s, data, from)) {
            None => {
                lemma_collect_snoc(s, data, from + 1, mid, out, entry);
                if spec_identity_key(s.headers@, spec_record_bytes(s, data, mid)) is Some {
                    assert(spec_collect_matches(s, data, from + 1, mid + 1, out.push(entry)));
                    assert(spec_collect_matches(s, data, from, mid + 1, out.push(entry)));
                } else {
                    assert(spec_collect_matches(s, data, from + 1, mid + 1, out));
                    assert(spec_collect_matches(s, data, from, mid + 1, out));
                }
            },
            Some(k0) => {
                assert(out.len() >= 1 && out[0].0@ == k0 && spec_sample_matches(
                    out[0].1@,
                    s.headers@,
                    spec_record_bytes(s, data, from),
                ) && spec_collect_matches(s, data, from + 1, mid, out.drop_first()));
                lemma_collect_snoc(s, data, from + 1, mid, out.drop_first(), entry);
                if spec_identity_key(s.headers@, spec_record_bytes(s, data, mid)) is Some {
                    let out2 = out.push(entry);
                    assert(out2.drop_first() =~= out.drop_first().push(entry));
                    assert(out2[0] == out[0]);
                    assert(spec_collect_matches(s, data, from + 1, mid + 1, out2.drop_first()));
                    assert(spec_collect_matches(s, data, from, mid + 1, out2));
                } else {
                    assert(spec_collect_matches(s, data, from + 1, mid + 1, out.drop_first()));
                    assert(spec_collect_matches(s, data, from, mid + 1, out));
                }
            },
        }
    }
}

/// A record read is a pure function of the file contents and the index:
/// any two decoded mappings that the `get_record` contract admits for the
/// same sampler, the same bytes and the same index agree entry by entry.
pub proof fn lemma_get_record_deterministic(
    s: TelemetrySampler,
    data: Seq<u8>,
    index: u32,
    first: Seq<(String, TelemetryValue)>,
    second: Seq<(String, TelemetryValue)>,
)
    requires
        spec_get_record_post(s, data, index, first),
        spec_get_record_post(s, data, index, second),
    ensures
        first.len() == second.len(),
        forall|i: int|
            0 <= i < first.len() ==> (#[trigger] first[i]).0@ == second[i].0@ && first[i].1.unit@
                == second[i].1.unit@ && first[i].1.data_type == second[i].1.data_type
                && spec_channel_data_like(first[i].1.data, second[i].1.data),
{
    if spec_record_available(s, data, index as int) {
        let record = spec_record_bytes(s, data, index as int);
        assert forall|i: int| 0 <= i < first.len() implies (#[trigger] first[i]).0@ == second[i].0@
            && first[i].1.unit@ == second[i].1.unit@ && first[i].1.data_type
            == second[i].1.data_type && spec_channel_data_like(
            first[i].1.data,
            second[i].1.data,
        ) by {
            assert(spec_value_matches(first[i].1, s.headers@[i], record));
            assert(spec_value_matches(second[i].1, s.headers@[i], record));
        }
    }
}

} // verus!
