//! The `cmap` table: encoding subtable records, the priority by which one
//! is selected, and the decoders for subtable formats 0, 4, 6, 12 and 13.

use vstd::prelude::*;
use crate::Error;
use crate::raw::{
    u16_at, u32_at, be_u16, be_u32, spec_u16_from_raw, spec_i16_from_raw,
    read_u16_from_raw_data, read_i16_from_raw_data,
};
use crate::glyph_index::wrap16;

verus! {

/// A unicode-platform encoding id.
#[derive(Debug, PartialEq, Eq, Clone, Copy, Structural)]
pub enum UnicodeEncodingId {
    DefaultSemantics,
    Version11Semantics,
    Unicode20BMPOnly,
    Unicode20,
    UnicodeVariationSequences,
    FullUnicodeCoverage,
}

/// A microsoft-platform encoding id.
#[derive(Debug, PartialEq, Eq, Clone, Copy, Structural)]
pub enum MicrosoftEncodingId {
    Symbol,
    UnicodeUCS2,
    ShiftJIS,
    PRC,
    BigFive,
    Johab,
    UnicodeUCS4,
}

/// A recognized (platform id, platform-specific id) pair.
#[derive(Debug, PartialEq, Eq, Clone, Copy, Structural)]
pub enum Platform {
    Unicode(UnicodeEncodingId),
    Microsoft(MicrosoftEncodingId),
}

/// The recognized pair for the two id fields, if any.
pub open spec fn spec_platform(platform_id: int, platform_specific_id: int) -> Option<Platform> {
    if platform_id == 0 {
        if platform_specific_id == 0 {
            Some(Platform::Unicode(UnicodeEncodingId::DefaultSemantics))
        } else if platform_specific_id == 1 {
            Some(Platform::Unicode(UnicodeEncodingId::Version11Semantics))
        } else if platform_specific_id == 3 {
            Some(Platform::Unicode(UnicodeEncodingId::Unicode20BMPOnly))
        } else if platform_specific_id == 4 {
            Some(Platform::Unicode(UnicodeEncodingId::Unicode20))
        } else if platform_specific_id == 5 {
            Some(Platform::Unicode(UnicodeEncodingId::UnicodeVariationSequences))
        } else if platform_specific_id == 6 {
            Some(Platform::Unicode(UnicodeEncodingId::FullUnicodeCoverage))
        } else {
            None
        }
    } else if platform_id == 3 {
        if platform_specific_id == 0 {
            Some(Platform::Microsoft(MicrosoftEncodingId::Symbol))
        } else if platform_specific_id == 1 {
            Some(Platform::Microsoft(MicrosoftEncodingId::UnicodeUCS2))
        } else if platform_specific_id == 2 {
            Some(Platform::Microsoft(MicrosoftEncodingId::ShiftJIS))
        } else if platform_specific_id == 3 {
            Some(Platform::Microsoft(MicrosoftEncodingId::PRC))
        } else if platform_specific_id == 4 {
            Some(Platform::Microsoft(MicrosoftEncodingId::BigFive))
        } else if platform_specific_id == 5 {
            Some(Platform::Microsoft(MicrosoftEncodingId::Johab))
        } else if platform_specific_id == 10 {
            Some(Platform::Microsoft(MicrosoftEncodingId::UnicodeUCS4))
        } else {
            None
        }
    } else {
        None
    }
}

impl Platform {
    /// The recognized platform/encoding pair, or `None`: unknown ids are
    /// rejected here instead of failing anywhere later.
    pub fn new(platform_id: u16, platform_specific_id: u16) -> (r: Option<Self>)
        ensures
            r == spec_platform(platform_id as int, platform_specific_id as int),
    {
        match platform_id {
            0 => match platform_specific_id {
                0 => Some(Platform::Unicode(UnicodeEncodingId::DefaultSemantics)),
                1 => Some(Platform::Unicode(UnicodeEncodingId::Version11Semantics)),
                3 => Some(Platform::Unicode(UnicodeEncodingId::Unicode20BMPOnly)),
                4 => Some(Platform::Unicode(UnicodeEncodingId::Unicode20)),
                5 => Some(Platform::Unicode(UnicodeEncodingId::UnicodeVariationSequences)),
                6 => Some(Platform::Unicode(UnicodeEncodingId::FullUnicodeCoverage)),
                _ => None,
            },
            3 => match platform_specific_id {
                0 => Some(Platform::Microsoft(MicrosoftEncodingId::Symbol)),
                1 => Some(Platform::Microsoft(MicrosoftEncodingId::UnicodeUCS2)),
                2 => Some(Platform::Microsoft(MicrosoftEncodingId::ShiftJIS)),
                3 => Some(Platform::Microsoft(MicrosoftEncodingId::PRC)),
                4 => Some(Platform::Microsoft(MicrosoftEncodingId::BigFive)),
                5 => Some(Platform::Microsoft(MicrosoftEncodingId::Johab)),
                10 => Some(Platform::Microsoft(MicrosoftEncodingId::UnicodeUCS4)),
                _ => None,
            },
            _ => None,
        }
    }
}

/// One encoding subtable record: a recognized platform pair and the byte
/// offset of its subtable from the start of the `cmap` table.
#[derive(Debug, PartialEq, Eq, Clone, Copy, Structural)]
pub struct EncodingSubtable {
    pub platform: Platform,
    pub offset: u32,
}

/// The selection priority of a recognized platform pair: lower is better.
pub open spec fn spec_order(p: Platform) -> int {
    match p {
        Platform::Unicode(UnicodeEncodingId::Unicode20) => 0,
        Platform::Unicode(UnicodeEncodingId::Unicode20BMPOnly) => 1,
        Platform::Unicode(UnicodeEncodingId::Version11Semantics) => 1,
        Platform::Unicode(UnicodeEncodingId::DefaultSemantics) => 1,
        Platform::Microsoft(MicrosoftEncodingId::UnicodeUCS4) => 2,
        Platform::Microsoft(MicrosoftEncodingId::UnicodeUCS2) => 3,
        Platform::Microsoft(MicrosoftEncodingId::Symbol) => 4,
        _ => 10,
    }
}

impl EncodingSubtable {
    /// Defines an order in which the encoding subtables should be selected.
    pub fn order(&self) -> (r: u32)
        ensures
            r as int == spec_order(self.platform),
    {
        match self.platform {
            Platform::Unicode(UnicodeEncodingId::Unicode20) => 0,
            Platform::Unicode(UnicodeEncodingId::Unicode20BMPOnly) => 1,
            Platform::Unicode(UnicodeEncodingId::Version11Semantics) => 1,
            Platform::Unicode(UnicodeEncodingId::DefaultSemantics) => 1,
            Platform::Microsoft(MicrosoftEncodingId::UnicodeUCS4) => 2,
            Platform::Microsoft(MicrosoftEncodingId::UnicodeUCS2) => 3,
            Platform::Microsoft(MicrosoftEncodingId::Symbol) => 4,
            _ => 10,
        }
    }
}

/// Copies `data[lo..hi]` into a fresh vector.
fn copy_range(data: &[u8], lo: usize, hi: usize) -> (r: Vec<u8>)
    requires
        lo <= hi <= data.len(),
    ensures
        r@ == data@.subrange(lo as int, hi as int),
{
    let mut out: Vec<u8> = Vec::new();
    let mut i: usize = lo;
    while i < hi
        invariant
            lo <= i <= hi <= data.len(),
            out@ == data@.subrange(lo as int, i as int),
        decreases hi - i,
    {
        out.push(data[i]);
        proof {
            assert(out@ =~= data@.subrange(lo as int, i + 1));
        }
        i = i + 1;
    }
    out
}

/// A format 0 subtable: a byte-indexed table for codes 0 through 255.
#[derive(Debug, PartialEq, Eq, Clone)]
pub struct Format0 {
    pub format: u16,
    pub length: u16,
    pub language: u16,
    pub glyph_index_array: Vec<u8>,
}

impl Format0 {
    /// The struct's fields are the subtable's fields at `off`.
    pub open spec fn parsed_from(self, d: Seq<u8>, off: int) -> bool {
        &&& self.format as int == u16_at(d, off)
        &&& self.length == 262
        &&& self.language as int == u16_at(d, off + 4)
        &&& self.glyph_index_array@ == d.subrange(off + 6, off + 262)
    }

    /// Decodes a format 0 subtable at `offset`: its declared length must
    /// be the fixed 262 bytes, all inside the buffer.
    pub fn from_data(data: &[u8], offset: usize) -> (r: Result<Format0, Error>)
        ensures
            match r {
                Ok(f) => {
                    &&& offset + 262 <= data@.len()
                    &&& u16_at(data@, offset + 2) == 262
                    &&& f.parsed_from(data@, offset as int)
                },
                Err(e) => e == Error::Malformed
                    && (offset + 262 > data@.len() || u16_at(data@, offset + 2) != 262),
            },
    {
        if offset >= data.len() || data.len() - offset < 262 {
            return Err(Error::Malformed);
        }
        let format = be_u16(data, offset);
        let length = be_u16(data, offset + 2);
        if length != 262 {
            return Err(Error::Malformed);
        }
        let language = be_u16(data, offset + 4);
        Ok(Format0 {
            format,
            length,
            language,
            glyph_index_array: copy_range(data, offset + 6, offset + 262),
        })
    }

    /// The glyph for a code: the indexed byte, or `None` past the table.
    pub fn index_for_code(&self, code: usize) -> (r: Option<usize>)
        ensures
            r == (if code < self.glyph_index_array@.len() {
                Some(self.glyph_index_array@[code as int] as usize)
            } else {
                None::<usize>
            }),
    {
        if code < self.glyph_index_array.len() {
            Some(self.glyph_index_array[code] as usize)
        } else {
            None
        }
    }
}

/// One segment of a format 4 subtable, as four parallel-array entries.
#[derive(Debug, PartialEq, Eq, Clone, Copy, Structural)]
pub struct Format4Segment {
    pub start_code: usize,
    pub end_code: usize,
    pub id_delta: isize,
    pub id_range_offset: usize,
}

/// A format 4 subtable: segmented mapping to delta values, with four
/// parallel arrays kept as raw big-endian bytes.
#[derive(Debug, PartialEq, Eq, Clone)]
pub struct Format4 {
    pub format: u16,
    pub length: u16,
    pub language: u16,
    pub seg_count_x2: u16,
    pub search_range: u16,
    pub entry_selector: u16,
    pub range_shift: u16,
    pub end_code: Vec<u8>,
    pub reserved_pad: u16,
    pub start_code: Vec<u8>,
    pub id_delta: Vec<u8>,
    pub id_range_offset: Vec<u8>,
    pub glyph_index_array: Vec<u8>,
}

/// The segment entry `i` of a format 4 table, when all four parallel
/// arrays hold an entry `i`.
pub open spec fn spec_segment_at(f: Format4, i: int) -> Option<Format4Segment> {
    match (
        spec_u16_from_raw(f.start_code@, i),
        spec_u16_from_raw(f.end_code@, i),
        spec_i16_from_raw(f.id_delta@, i),
        spec_u16_from_raw(f.id_range_offset@, i),
    ) {
        (Some(s), Some(e), Some(dl), Some(ro)) => Some(Format4Segment {
            start_code: s as usize,
            end_code: e as usize,
            id_delta: dl as isize,
            id_range_offset: ro as usize,
        }),
        _ => None,
    }
}

/// The first segment in `[from, n)` whose end code is at least `code`.
pub open spec fn f4t_candidate(end_code: Seq<u8>, n: int, code: int, from: int) -> Option<int>
    decreases n - from,
{
    if from >= n {
        None
    } else if u16_at(end_code, 2 * from) >= code {
        Some(from)
    } else {
        f4t_candidate(end_code, n, code, from + 1)
    }
}

/// What a format 4 lookup yields: find the candidate segment by end code,
/// validate the start code, then map directly through `code + idDelta`
/// (mod 65536) or indirectly through the glyphIdArray at
/// `idRangeOffset/2 + (code - startCode) + segmentIndex`, where a stored
/// zero or a read past the array means "not mapped".
pub open spec fn spec_f4_index(f: Format4, code: int) -> Option<usize> {
    if code >= 0xFFFF {
        None
    } else {
        match f4t_candidate(f.end_code@, f.end_code@.len() as int / 2, code, 0) {
            None => None,
            Some(i) => match spec_segment_at(f, i) {
                None => None,
                Some(s) => if s.start_code <= code {
                    if s.id_range_offset == 0 {
                        Some(wrap16(code + s.id_delta) as usize)
                    } else {
                        match spec_u16_from_raw(
                            f.glyph_index_array@,
                            s.id_range_offset as int / 2 + (code - s.start_code) + i,
                        ) {
                            Some(g) => if g != 0 {
                                Some(g as usize)
                            } else {
                                None
                            },
                            None => None,
                        }
                    }
                } else {
                    None
                },
            },
        }
    }
}

impl Format4 {
    /// The struct's fields are the subtable's fields at `off`.
    pub open spec fn parsed_from(self, d: Seq<u8>, off: int) -> bool {
        let scx2 = u16_at(d, off + 6);
        &&& self.format as int == u16_at(d, off)
        &&& self.length as int == u16_at(d, off + 2)
        &&& self.language as int == u16_at(d, off + 4)
        &&& self.seg_count_x2 as int == scx2
        &&& self.search_range as int == u16_at(d, off + 8)
        &&& self.entry_selector as int == u16_at(d, off + 10)
        &&& self.range_shift as int == u16_at(d, off + 12)
        &&& self.end_code@ == d.subrange(off + 14, off + 14 + scx2)
        &&& self.reserved_pad as int == u16_at(d, off + 14 + scx2)
        &&& self.start_code@ == d.subrange(off + 16 + scx2, off + 16 + 2 * scx2)
        &&& self.id_delta@ == d.subrange(off + 16 + 2 * scx2, off + 16 + 3 * scx2)
        &&& self.id_range_offset@ == d.subrange(off + 16 + 3 * scx2, off + 16 + 4 * scx2)
        &&& self.glyph_index_array@ == d.subrange(off + 16 + 4 * scx2, off + u16_at(d, off + 2))
    }

    /// Decodes a format 4 subtable at `offset`: the declared length must
    /// cover the header and the four parallel arrays, and lie inside the
    /// buffer; the glyphIdArray is whatever the declared length leaves
    /// after them.
    pub fn from_data(data: &[u8], offset: usize) -> (r: Result<Format4, Error>)
        ensures
            match r {
                Ok(f) => f4_parses(data@, offset as int) && f.parsed_from(data@, offset as int),
                Err(e) => e == Error::Malformed && !f4_parses(data@, offset as int),
            },
    {
        if offset >= data.len() || data.len() - offset < 16 {
            return Err(Error::Malformed);
        }
        let format = be_u16(data, offset);
        let length = be_u16(data, offset + 2);
        let language = be_u16(data, offset + 4);
        let seg_count_x2 = be_u16(data, offset + 6);
        let search_range = be_u16(data, offset + 8);
        let entry_selector = be_u16(data, offset + 10);
        let range_shift = be_u16(data, offset + 12);
        let scx2 = seg_count_x2 as usize;
        // Check that length is correct.
        if (length as usize) < 16 + 4 * scx2 || data.len() - offset < length as usize {
            return Err(Error::Malformed);
        }
        let z = offset + 14;
        Ok(Format4 {
            format,
            length,
            language,
            seg_count_x2,
            search_range,
            entry_selector,
            range_shift,
            end_code: copy_range(data, z, z + scx2),
            reserved_pad: be_u16(data, z + scx2),
            start_code: copy_range(data, z + scx2 + 2, z + 2 * scx2 + 2),
            id_delta: copy_range(data, z + 2 * scx2 + 2, z + 3 * scx2 + 2),
            id_range_offset: copy_range(data, z + 3 * scx2 + 2, z + 4 * scx2 + 2),
            glyph_index_array: copy_range(data, z + 4 * scx2 + 2, offset + length as usize),
        })
    }

    /// The segment at index `i` of the four parallel arrays.
    pub fn segment_at_index(&self, i: usize) -> (r: Option<Format4Segment>)
        ensures
            r == spec_segment_at(*self, i as int),
    {
        let s = read_u16_from_raw_data(self.start_code.as_slice(), i);
        let e = read_u16_from_raw_data(self.end_code.as_slice(), i);
        let dl = read_i16_from_raw_data(self.id_delta.as_slice(), i);
        let ro = read_u16_from_raw_data(self.id_range_offset.as_slice(), i);
        if let (Some(s), Some(e), Some(dl), Some(ro)) = (s, e, dl, ro) {
            Some(Format4Segment {
                start_code: s as usize,
                end_code: e as usize,
                id_delta: dl as isize,
                id_range_offset: ro as usize,
            })
        } else {
            None
        }
    }

    /// The glyph for a code, or `None` where the table does not map it.
    pub fn index_for_code(&self, code: usize) -> (r: Option<usize>)
        ensures
            r == spec_f4_index(*self, code as int),
    {
        if code >= 0xFFFF {
            return None;
        }
        let n = self.end_code.len() / 2;
        let mut i: usize = 0;
        let mut cand: Option<usize> = None;
        #[verifier::loop_isolation(true)]
        while i < n
            invariant_except_break
                0 <= i <= n,
                2 * n <= self.end_code@.len(),
                self.end_code@.len() <= usize::MAX,
                cand.is_none(),
                f4t_candidate(self.end_code@, n as int, code as int, 0)
                    == f4t_candidate(self.end_code@, n as int, code as int, i as int),
            ensures
                match cand {
                    None => f4t_candidate(self.end_code@, n as int, code as int, 0) is None,
                    Some(c) => c < n && f4t_candidate(self.end_code@, n as int, code as int, 0)
                        == Some(c as int),
                },
            decreases n - i,
        {
            if be_u16(self.end_code.as_slice(), 2 * i) as usize >= code {
                cand = Some(i);
                break;
            }
            i = i + 1;
        }
        let i = match cand {
            None => { return None; },
            Some(c) => c,
        };
        let s = match self.segment_at_index(i) {
            None => { return None; },
            Some(s) => s,
        };
        if s.start_code > code {
            return None;
        }
        if s.id_range_offset == 0 {
            let sum: i64 = code as i64 + s.id_delta as i64;
            let v: i64 = if sum < 0 {
                sum + 0x10000
            } else if sum >= 0x10000 {
                sum - 0x10000
            } else {
                sum
            };
            Some(v as usize)
        } else {
            let index: usize = s.id_range_offset / 2 + (code - s.start_code) + i;
            match read_u16_from_raw_data(self.glyph_index_array.as_slice(), index) {
                Some(g) => if g != 0 {
                    Some(g as usize)
                } else {
                    None
                },
                None => None,
            }
        }
    }
}

/// A format 6 subtable: a trimmed contiguous range of 16-bit values.
#[derive(Debug, PartialEq, Eq, Clone)]
pub struct Format6 {
    pub format: u16,
    pub length: u16,
    pub language: u16,
    pub first_code: u16,
    pub entry_count: u16,
    pub raw_glyph_index_array: Vec<u8>,
}

impl Format6 {
    /// The struct's fields are the subtable's fields at `off`.
    pub open spec fn parsed_from(self, d: Seq<u8>, off: int) -> bool {
        &&& self.format as int == u16_at(d, off)
        &&& self.length as int == u16_at(d, off + 2)
        &&& self.language as int == u16_at(d, off + 4)
        &&& self.first_code as int == u16_at(d, off + 6)
        &&& self.entry_count as int == u16_at(d, off + 8)
        &&& self.raw_glyph_index_array@ == d.subrange(off + 10, off + 10 + 2 * u16_at(d, off + 8))
    }

    /// Decodes a format 6 subtable at `offset`: the declared entry count's
    /// 16-bit values must all lie inside the buffer.
    pub fn from_data(data: &[u8], offset: usize) -> (r: Result<Format6, Error>)
        ensures
            match r {
                Ok(f) => f6_parses(data@, offset as int) && f.parsed_from(data@, offset as int),
                Err(e) => e == Error::Malformed && !f6_parses(data@, offset as int),
            },
    {
        if offset >= data.len() || data.len() - offset < 10 {
            return Err(Error::Malformed);
        }
        let format = be_u16(data, offset);
        let length = be_u16(data, offset + 2);
        let language = be_u16(data, offset + 4);
        let first_code = be_u16(data, offset + 6);
        let entry_count = be_u16(data, offset + 8);
        let size = entry_count as usize * 2;
        if data.len() - offset - 10 < size {
            return Err(Error::Malformed);
        }
        Ok(Format6 {
            format,
            length,
            language,
            first_code,
            entry_count,
            raw_glyph_index_array: copy_range(data, offset + 10, offset + 10 + size),
        })
    }

    /// The glyph for a code: the listed value inside the trimmed range,
    /// `None` outside it or past the stored array.
    pub fn index_for_code(&self, code: usize) -> (r: Option<usize>)
        ensures
            r == (if self.first_code as int <= code < self.first_code + self.entry_count {
                match spec_u16_from_raw(self.raw_glyph_index_array@, code - self.first_code) {
                    Some(g) => Some(g as usize),
                    None => None::<usize>,
                }
            } else {
                None::<usize>
            }),
    {
        let first_code = self.first_code as usize;
        let entry_count = self.entry_count as usize;
        if code < first_code || code >= first_code + entry_count {
            None
        } else {
            match read_u16_from_raw_data(self.raw_glyph_index_array.as_slice(), code - first_code) {
                Some(g) => Some(g as usize),
                None => None,
            }
        }
    }
}

/// One group of a format 12 or 13 subtable.
#[derive(Debug, PartialEq, Eq, Clone, Copy, Structural)]
pub struct GroupFormat1213 {
    pub start_char_code: u32,
    pub end_char_code: u32,
    pub start_glyph_code: u32,
}

/// A format 12 or 13 subtable: sorted, non-overlapping groups of
/// consecutive codes.
#[derive(Debug, PartialEq, Eq, Clone)]
pub struct Format1213 {
    pub format: u32,
    pub length: u32,
    pub language: u32,
    pub n_groups: u32,
    pub groups: Vec<GroupFormat1213>,
}

/// The group recorded at index `k` of the group array at `offset + 16`.
pub open spec fn spec_group_at(d: Seq<u8>, offset: int, k: int) -> GroupFormat1213 {
    GroupFormat1213 {
        start_char_code: u32_at(d, offset + 16 + 12 * k) as u32,
        end_char_code: u32_at(d, offset + 16 + 12 * k + 4) as u32,
        start_glyph_code: u32_at(d, offset + 16 + 12 * k + 8) as u32,
    }
}

/// The first group in `[from, n)` whose range holds `code`.
pub open spec fn f1213_group(gs: Seq<GroupFormat1213>, code: int, from: int) -> Option<int>
    decreases gs.len() - from,
{
    if from >= gs.len() {
        None
    } else if gs[from].start_char_code <= code <= gs[from].end_char_code {
        Some(from)
    } else {
        f1213_group(gs, code, from + 1)
    }
}

impl Format1213 {
    /// The struct's fields are the subtable's fields at `off`.
    pub open spec fn parsed_from(self, d: Seq<u8>, off: int) -> bool {
        &&& self.format as int == u32_at(d, off)
        &&& self.length as int == u32_at(d, off + 4)
        &&& self.language as int == u32_at(d, off + 8)
        &&& self.n_groups as int == u32_at(d, off + 12)
        &&& self.groups@.len() == self.n_groups
        &&& forall|k: int| 0 <= k < self.n_groups ==> self.groups@[k] == spec_group_at(d, off, k)
    }

    /// Decodes a format 12 or 13 subtable at `offset`: the declared group
    /// count's 12-byte records must all lie inside the buffer.
    pub fn from_data(data: &[u8], offset: usize) -> (r: Result<Format1213, Error>)
        ensures
            match r {
                Ok(f) => f1213_parses(data@, offset as int)
                    && f.parsed_from(data@, offset as int),
                Err(e) => e == Error::Malformed && !f1213_parses(data@, offset as int),
            },
    {
        if offset >= data.len() || data.len() - offset < 16 {
            return Err(Error::Malformed);
        }
        let format = be_u32(data, offset);
        let length = be_u32(data, offset + 4);
        let language = be_u32(data, offset + 8);
        let n_groups = be_u32(data, offset + 12);
        let n = n_groups as usize;
        if ((data.len() - offset - 16) / 12) < n {
            return Err(Error::Malformed);
        }
        let mut groups: Vec<GroupFormat1213> = Vec::new();
        let mut k: usize = 0;
        while k < n
            invariant
                0 <= k <= n,
                offset + 16 + 12 * n <= data@.len(),
                groups@.len() == k,
                forall|t: int| 0 <= t < k ==> groups@[t] == spec_group_at(data@, offset as int, t),
            decreases n - k,
        {
            let z = offset + 16 + 12 * k;
            groups.push(GroupFormat1213 {
                start_char_code: be_u32(data, z),
                end_char_code: be_u32(data, z + 4),
                start_glyph_code: be_u32(data, z + 8),
            });
            k = k + 1;
        }
        Ok(Format1213 { format, length, language, n_groups, groups })
    }

    /// The glyph for a code: search the groups for one holding it; format
    /// 12 maps to `startGlyph + (code - startChar)`, format 13 to the
    /// group's constant `startGlyph`. `None` where no group holds the
    /// code, or where the format 12 sum leaves the address space.
    pub fn index_for_code(&self, code: usize) -> (r: Option<usize>)
        ensures
            r == (match f1213_group(self.groups@, code as int, 0) {
                None => None::<usize>,
                Some(k) => {
                    let g = self.groups@[k];
                    if self.format == 0xC_0000 {
                        if g.start_glyph_code + code - g.start_char_code <= usize::MAX {
                            Some((g.start_glyph_code + code - g.start_char_code) as usize)
                        } else {
                            None::<usize>
                        }
                    } else {
                        Some(g.start_glyph_code as usize)
                    }
                },
            }),
    {
        let n = self.groups.len();
        let mut k: usize = 0;
        let mut hit: Option<usize> = None;
        #[verifier::loop_isolation(true)]
        while k < n
            invariant_except_break
                0 <= k <= n,
                n == self.groups@.len(),
                hit.is_none(),
                f1213_group(self.groups@, code as int, 0)
                    == f1213_group(self.groups@, code as int, k as int),
            ensures
                n == self.groups@.len(),
                match hit {
                    None => f1213_group(self.groups@, code as int, 0) is None,
                    Some(h) => h < n && f1213_group(self.groups@, code as int, 0)
                        == Some(h as int)
                        && self.groups@[h as int].start_char_code <= code
                        && code <= self.groups@[h as int].end_char_code,
                },
            decreases n - k,
        {
            let g = self.groups[k];
            if g.start_char_code as usize <= code && code <= g.end_char_code as usize {
                hit = Some(k);
                break;
            }
            k = k + 1;
        }
        let k = match hit {
            None => { return None; },
            Some(h) => h,
        };
        let g = self.groups[k];
        if self.format == 0xC_0000 {
            // Format 12.0: the group maps consecutively.
            let v: u64 = g.start_glyph_code as u64 + (code as u64 - g.start_char_code as u64);
            if v <= usize::MAX as u64 {
                Some(v as usize)
            } else {
                None
            }
        } else {
            Some(g.start_glyph_code as usize)
        }
    }
}

/// The decoded form of whichever subtable format the selected encoding
/// record points at.
#[derive(Debug, PartialEq, Eq, Clone)]
pub enum Format {
    F0(Format0),
    F4(Format4),
    F6(Format6),
    F1213(Format1213),
}

/// A format 0 parse succeeds: the fixed length lies inside the buffer.
pub open spec fn f0_parses(d: Seq<u8>, off: int) -> bool {
    off + 262 <= d.len() && u16_at(d, off + 2) == 262
}

/// A format 4 parse succeeds: the header fits, the declared length covers
/// the header and the four parallel arrays, and lies inside the buffer.
pub open spec fn f4_parses(d: Seq<u8>, off: int) -> bool {
    &&& off + 16 <= d.len()
    &&& u16_at(d, off + 2) >= 16 + 4 * u16_at(d, off + 6)
    &&& off + u16_at(d, off + 2) <= d.len()
}

/// A format 6 parse succeeds: the declared entries lie inside the buffer.
pub open spec fn f6_parses(d: Seq<u8>, off: int) -> bool {
    off + 10 <= d.len() && off + 10 + 2 * u16_at(d, off + 8) <= d.len()
}

/// A format 12 or 13 parse succeeds: the declared groups lie inside the
/// buffer.
pub open spec fn f1213_parses(d: Seq<u8>, off: int) -> bool {
    off + 16 <= d.len() && off + 16 + 12 * u32_at(d, off + 12) <= d.len()
}

/// How decoding the subtable at `off` fails, or `None` when it succeeds:
/// dispatch on the format tag, formats 2 and unknown unsupported, each
/// known format malformed exactly when its declared extent leaves the
/// buffer.
pub open spec fn spec_format_error(d: Seq<u8>, off: int) -> Option<Error> {
    if off + 2 > d.len() {
        Some(Error::Malformed)
    } else {
        let tag = u16_at(d, off);
        if tag == 0 {
            if f0_parses(d, off) { None } else { Some(Error::Malformed) }
        } else if tag == 4 {
            if f4_parses(d, off) { None } else { Some(Error::Malformed) }
        } else if tag == 6 {
            if f6_parses(d, off) { None } else { Some(Error::Malformed) }
        } else if tag == 12 || tag == 13 {
            if f1213_parses(d, off) { None } else { Some(Error::Malformed) }
        } else {
            Some(Error::CMAPFormatIsNotSupported)
        }
    }
}

/// The decoded value is the subtable recorded at `off`: the right variant
/// for the format tag, with its fields read from the bytes.
pub open spec fn spec_format_parsed(f: Format, d: Seq<u8>, off: int) -> bool {
    let tag = u16_at(d, off);
    match f {
        Format::F0(x) => tag == 0 && x.parsed_from(d, off),
        Format::F4(x) => tag == 4 && x.parsed_from(d, off),
        Format::F6(x) => tag == 6 && x.parsed_from(d, off),
        Format::F1213(x) => (tag == 12 || tag == 13) && x.parsed_from(d, off),
    }
}

impl Format {
    /// Decodes the subtable at `offset` by its format tag; format 2 and
    /// any unknown tag are unsupported.
    pub fn from_data(data: &[u8], offset: usize) -> (r: Result<Format, Error>)
        ensures
            match spec_format_error(data@, offset as int) {
                Some(e) => r == Err::<Format, Error>(e),
                None => r matches Ok(f) && spec_format_parsed(f, data@, offset as int),
            },
    {
        if offset >= data.len() || data.len() - offset < 2 {
            return Err(Error::Malformed);
        }
        let format = be_u16(data, offset);
        match format {
            0 => match Format0::from_data(data, offset) {
                Ok(f) => Ok(Format::F0(f)),
                Err(e) => Err(e),
            },
            4 => match Format4::from_data(data, offset) {
                Ok(f) => Ok(Format::F4(f)),
                Err(e) => Err(e),
            },
            6 => match Format6::from_data(data, offset) {
                Ok(f) => Ok(Format::F6(f)),
                Err(e) => Err(e),
            },
            12 | 13 => match Format1213::from_data(data, offset) {
                Ok(f) => Ok(Format::F1213(f)),
                Err(e) => Err(e),
            },
            _ => Err(Error::CMAPFormatIsNotSupported),
        }
    }
}

/// The decoded `cmap` table: the encoding subtable selected by priority
/// and its decoded format.
#[derive(Debug, PartialEq, Eq, Clone)]
pub struct CMAP {
    pub encoding_subtable: EncodingSubtable,
    pub cmap_offset: usize,
    pub format: Format,
}

impl CMAP {
    /// Decodes the `cmap` table at `offset`: reads the encoding records
    /// (whose declared count must fit in the buffer), keeps the recognized
    /// ones, selects the best by priority (the earliest on ties), and
    /// decodes the subtable it points at.
    pub fn from_data(data: &[u8], offset: usize) -> (r: Result<CMAP, Error>)
        ensures
            offset + 4 > data@.len() ==> r == Err::<CMAP, Error>(Error::Malformed),
            offset + 4 + 8 * u16_at(data@, offset + 2) > data@.len()
                ==> r == Err::<CMAP, Error>(Error::Malformed),
            offset + 4 + 8 * u16_at(data@, offset + 2) <= data@.len() ==> match
                crate::font::best_subtable_upto(
                    data@, offset + 4, u16_at(data@, offset + 2),
                ) {
                None => r == Err::<CMAP, Error>(Error::CMAPEncodingSubtableIsNotSupported),
                Some(b) => {
                    let sub = offset + u32_at(data@, offset + 4 + 8 * b.1 + 4);
                    if sub > usize::MAX as int {
                        r == Err::<CMAP, Error>(Error::Malformed)
                    } else {
                        match spec_format_error(data@, sub) {
                            Some(e) => r == Err::<CMAP, Error>(e),
                            None => match r {
                                Ok(c) => {
                                    &&& c.cmap_offset == offset
                                    &&& Some(c.encoding_subtable.platform) == spec_platform(
                                        u16_at(data@, offset + 4 + 8 * b.1),
                                        u16_at(data@, offset + 4 + 8 * b.1 + 2),
                                    )
                                    &&& c.encoding_subtable.offset as int == u32_at(
                                        data@, offset + 4 + 8 * b.1 + 4)
                                    &&& offset + c.encoding_subtable.offset <= usize::MAX
                                    &&& spec_format_parsed(c.format, data@, sub)
                                },
                                Err(_) => false,
                            },
                        }
                    }
                },
            },
    {
        if offset >= data.len() || data.len() - offset < 4 {
            return Err(Error::Malformed);
        }
        // Skip the 2-byte version field.
        let number_subtables = be_u16(data, offset + 2) as usize;
        let base = offset + 4;
        if (data.len() - base) / 8 < number_subtables {
            return Err(Error::Malformed);
        }
        let mut best: Option<(u32, usize)> = None;
        let mut j: usize = 0;
        while j < number_subtables
            invariant
                0 <= j <= number_subtables,
                number_subtables <= 0xFFFF,
                base == offset + 4,
                base + 8 * number_subtables <= data.len(),
                match best {
                    None => crate::font::best_subtable_upto(data@, base as int, j as int) is None,
                    Some(b) => b.1 < j && crate::font::best_subtable_upto(
                        data@, base as int, j as int) == Some((b.0 as int, b.1 as int)),
                },
            decreases number_subtables - j,
        {
            let pid = be_u16(data, base + 8 * j);
            let eid = be_u16(data, base + 8 * j + 2);
            match Platform::new(pid, eid) {
                None => {},
                Some(p) => {
                    let sub = EncodingSubtable { platform: p, offset: 0 };
                    let o = sub.order();
                    match best {
                        None => { best = Some((o, j)); },
                        Some(b) => {
                            if o < b.0 {
                                best = Some((o, j));
                            }
                        },
                    }
                },
            }
            j = j + 1;
        }
        let best_idx = match best {
            None => { return Err(Error::CMAPEncodingSubtableIsNotSupported); },
            Some(b) => b.1,
        };
        proof {
            crate::font::lemma_best_subtable_recognized(
                data@, base as int, number_subtables as int,
            );
        }
        let pid = be_u16(data, base + 8 * best_idx);
        let eid = be_u16(data, base + 8 * best_idx + 2);
        let platform = match Platform::new(pid, eid) {
            Some(p) => p,
            None => { return Err(Error::CMAPEncodingSubtableIsNotSupported); },
        };
        let sub_off = be_u32(data, base + 8 * best_idx + 4);
        let sub_abs = match offset.checked_add(sub_off as usize) {
            Some(s) => s,
            None => { return Err(Error::Malformed); },
        };
        let format = match Format::from_data(data, sub_abs) {
            Ok(f) => f,
            Err(e) => { return Err(e); },
        };
        Ok(CMAP {
            encoding_subtable: EncodingSubtable { platform, offset: sub_off },
            cmap_offset: offset,
            format,
        })
    }

    /// The byte offset of the selected index map from the start of the
    /// file the table was read from.
    pub fn index_map(&self) -> (r: usize)
        requires
            self.encoding_subtable.offset + self.cmap_offset <= usize::MAX,
        ensures
            r == self.encoding_subtable.offset + self.cmap_offset,
    {
        self.encoding_subtable.offset as usize + self.cmap_offset
    }
}

} // verus!
