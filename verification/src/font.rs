//! The font view: cached table offsets, the selected cmap subtable, and
//! the glyph count, all derived once from the raw bytes.

use vstd::prelude::*;
use crate::Error;
use crate::raw::{
    u16_at, u32_at, spec_find_table, find_table_offset, find_required_table_offset, be_u16, be_u32,
};
use crate::tables::cmap::{Platform, spec_platform, spec_order};

verus! {

pub open spec fn tag_cmap() -> Seq<u8> { seq![0x63u8, 0x6du8, 0x61u8, 0x70u8] }

pub open spec fn tag_loca() -> Seq<u8> { seq![0x6cu8, 0x6fu8, 0x63u8, 0x61u8] }

pub open spec fn tag_head() -> Seq<u8> { seq![0x68u8, 0x65u8, 0x61u8, 0x64u8] }

pub open spec fn tag_glyf() -> Seq<u8> { seq![0x67u8, 0x6cu8, 0x79u8, 0x66u8] }

pub open spec fn tag_hhea() -> Seq<u8> { seq![0x68u8, 0x68u8, 0x65u8, 0x61u8] }

pub open spec fn tag_hmtx() -> Seq<u8> { seq![0x68u8, 0x6du8, 0x74u8, 0x78u8] }

pub open spec fn tag_kern() -> Seq<u8> { seq![0x6bu8, 0x65u8, 0x72u8, 0x6eu8] }

pub open spec fn tag_maxp() -> Seq<u8> { seq![0x6du8, 0x61u8, 0x78u8, 0x70u8] }

/// What a required-table lookup yields: the offset, `MissingTable` when the
/// directory has no such entry, `Malformed` when the directory itself does
/// not fit in the buffer.
pub open spec fn spec_required_table(d: Seq<u8>, fs: int, tag: Seq<u8>) -> Result<int, Error> {
    match spec_find_table(d, fs, tag) {
        Err(e) => Err(e),
        Ok(None) => Err(Error::MissingTable),
        Ok(Some(o)) => Ok(o),
    }
}

/// The recognized platform pair of encoding record `j` (8 bytes at
/// `base + 8 j`: platform id, platform-specific id, subtable offset).
pub open spec fn rec_platform(d: Seq<u8>, base: int, j: int) -> Option<Platform> {
    spec_platform(u16_at(d, base + 8 * j), u16_at(d, base + 8 * j + 2))
}

/// The best (priority, record index) among encoding records `0..n`: the
/// recognized record with the least priority value, the earliest such
/// record on ties.
pub open spec fn best_subtable_upto(d: Seq<u8>, base: int, n: int) -> Option<(int, int)>
    decreases n,
{
    if n <= 0 {
        None
    } else {
        let prev = best_subtable_upto(d, base, n - 1);
        match rec_platform(d, base, n - 1) {
            None => prev,
            Some(p) => {
                let o = spec_order(p);
                match prev {
                    None => Some((o, n - 1)),
                    Some(b) => if o < b.0 {
                        Some((o, n - 1))
                    } else {
                        prev
                    },
                }
            },
        }
    }
}

/// A best record that the subtable scan selects is itself recognized, and
/// its priority is the recorded one.
pub proof fn lemma_best_subtable_recognized(d: Seq<u8>, base: int, n: int)
    ensures
        match best_subtable_upto(d, base, n) {
            Some(b) => 0 <= b.1 < n && (rec_platform(d, base, b.1) matches Some(p)
                && spec_order(p) == b.0),
            None => true,
        },
    decreases n,
{
    if n > 0 {
        lemma_best_subtable_recognized(d, base, n - 1);
    }
}

/// The cached fields a successful font load derives from the bytes.
pub ghost struct FontDirectory {
    pub num_glyphs: int,
    pub loca: int,
    pub head: int,
    pub glyf: int,
    pub hhea: int,
    pub hmtx: int,
    pub kern: int,
    pub index_map: int,
    pub index_to_loc_format: int,
}

/// Everything the font loader computes, in the order it computes it: the
/// required tables `cmap`, `loca`, `head`, `glyf`, `hhea`, `hmtx`; `kern`
/// optional (absent means offset 0, zero kerning); glyph count from `maxp`
/// or the permissive fallback 0xFFFF when `maxp` is absent; the selected
/// cmap encoding subtable by priority; and `indexToLocFormat` out of `head`.
pub open spec fn spec_load(d: Seq<u8>, fs: int) -> Result<FontDirectory, Error> {
    match spec_required_table(d, fs, tag_cmap()) {
        Err(e) => Err(e),
        Ok(cmap) => match spec_required_table(d, fs, tag_loca()) {
            Err(e) => Err(e),
            Ok(loca) => match spec_required_table(d, fs, tag_head()) {
                Err(e) => Err(e),
                Ok(head) => match spec_required_table(d, fs, tag_glyf()) {
                    Err(e) => Err(e),
                    Ok(glyf) => match spec_required_table(d, fs, tag_hhea()) {
                        Err(e) => Err(e),
                        Ok(hhea) => match spec_required_table(d, fs, tag_hmtx()) {
                            Err(e) => Err(e),
                            Ok(hmtx) => match spec_find_table(d, fs, tag_kern()) {
                                Err(e) => Err(e),
                                Ok(kopt) => spec_load_tail(
                                    d,
                                    fs,
                                    FontDirectory {
                                        num_glyphs: 0,
                                        loca,
                                        head,
                                        glyf,
                                        hhea,
                                        hmtx,
                                        kern: match kopt { None => 0, Some(k) => k },
                                        index_map: 0,
                                        index_to_loc_format: 0,
                                    },
                                    cmap,
                                ),
                            },
                        },
                    },
                },
            },
        },
    }
}

/// The second half of the load: glyph count, cmap subtable selection, and
/// `indexToLocFormat`, given the table offsets already resolved.
pub open spec fn spec_load_tail(d: Seq<u8>, fs: int, fd: FontDirectory, cmap: int) -> Result<FontDirectory, Error> {
    match spec_find_table(d, fs, tag_maxp()) {
        Err(e) => Err(e),
        Ok(mopt) => {
            let ng = match mopt {
                None => Ok(0xFFFF as int),
                Some(m) => if m + 6 <= d.len() {
                    Ok(u16_at(d, m + 4))
                } else {
                    Err(Error::Malformed)
                },
            };
            match ng {
                Err(e) => Err(e),
                Ok(num_glyphs) => {
                    if cmap + 4 > d.len() {
                        Err(Error::Malformed)
                    } else {
                        let nt = u16_at(d, cmap + 2);
                        if cmap + 4 + 8 * nt > d.len() {
                            Err(Error::Malformed)
                        } else {
                            match best_subtable_upto(d, cmap + 4, nt) {
                                None => Err(Error::CMAPEncodingSubtableIsNotSupported),
                                Some(b) => {
                                    let index_map = cmap + u32_at(d, cmap + 4 + 8 * b.1 + 4);
                                    if index_map > usize::MAX as int {
                                        Err(Error::Malformed)
                                    } else if fd.head + 52 <= d.len() {
                                        Ok(FontDirectory {
                                            num_glyphs,
                                            index_map,
                                            index_to_loc_format: u16_at(d, fd.head + 50),
                                            ..fd
                                        })
                                    } else {
                                        Err(Error::Malformed)
                                    }
                                },
                            }
                        }
                    }
                },
            }
        },
    }
}

/// An immutable view of one font: the raw bytes and the byte offsets of the
/// tables the decoders read.
#[derive(Debug, Clone, Copy)]
pub struct FontInfo<'a> {
    /// The whole .ttf file.
    pub data: &'a [u8],
    /// Offset of the start of the font inside `data`.
    pub fontstart: usize,
    /// Number of glyphs, needed for range checking.
    pub num_glyphs: usize,
    pub loca: usize,
    pub head: usize,
    pub glyf: usize,
    pub hhea: usize,
    pub hmtx: usize,
    /// Offset of the optional kerning table, 0 when the font has none.
    pub kern: usize,
    /// A cmap mapping for our chosen character encoding.
    pub index_map: usize,
    /// Format needed to map from glyph index to glyph.
    pub index_to_loc_format: usize,
}

impl<'a> FontInfo<'a> {
    /// The loaded view agrees field by field with what `spec_load` derives
    /// from the bytes.
    pub open spec fn matches(self, fd: FontDirectory) -> bool {
        &&& self.num_glyphs as int == fd.num_glyphs
        &&& self.loca as int == fd.loca
        &&& self.head as int == fd.head
        &&& self.glyf as int == fd.glyf
        &&& self.hhea as int == fd.hhea
        &&& self.hmtx as int == fd.hmtx
        &&& self.kern as int == fd.kern
        &&& self.index_map as int == fd.index_map
        &&& self.index_to_loc_format as int == fd.index_to_loc_format
    }

    /// Given an offset into the file that defines a font, this function
    /// builds the necessary cached info for the rest of the system.
    pub fn new_with_offset(data: &'a [u8], fontstart: usize) -> (r: Result<FontInfo<'a>, Error>)
        ensures
            match r {
                Ok(info) => {
                    &&& info.data@ == data@
                    &&& info.fontstart == fontstart
                    &&& spec_load(data@, fontstart as int) matches Ok(fd) && info.matches(fd)
                },
                Err(e) => spec_load(data@, fontstart as int) == Err::<FontDirectory, Error>(e),
            },
    {
        let t_cmap: [u8; 4] = [0x63, 0x6d, 0x61, 0x70];
        let t_loca: [u8; 4] = [0x6c, 0x6f, 0x63, 0x61];
        let t_head: [u8; 4] = [0x68, 0x65, 0x61, 0x64];
        let t_glyf: [u8; 4] = [0x67, 0x6c, 0x79, 0x66];
        let t_hhea: [u8; 4] = [0x68, 0x68, 0x65, 0x61];
        let t_hmtx: [u8; 4] = [0x68, 0x6d, 0x74, 0x78];
        let t_kern: [u8; 4] = [0x6b, 0x65, 0x72, 0x6e];
        let t_maxp: [u8; 4] = [0x6d, 0x61, 0x78, 0x70];
        proof {
            assert(t_cmap@ =~= tag_cmap());
            assert(t_loca@ =~= tag_loca());
            assert(t_head@ =~= tag_head());
            assert(t_glyf@ =~= tag_glyf());
            assert(t_hhea@ =~= tag_hhea());
            assert(t_hmtx@ =~= tag_hmtx());
            assert(t_kern@ =~= tag_kern());
            assert(t_maxp@ =~= tag_maxp());
        }

        let cmap = match find_required_table_offset(data, fontstart, &t_cmap) {
            Ok(o) => o,
            Err(e) => { return Err(e); },
        };
        let loca = match find_required_table_offset(data, fontstart, &t_loca) {
            Ok(o) => o,
            Err(e) => { return Err(e); },
        };
        let head = match find_required_table_offset(data, fontstart, &t_head) {
            Ok(o) => o,
            Err(e) => { return Err(e); },
        };
        let glyf = match find_required_table_offset(data, fontstart, &t_glyf) {
            Ok(o) => o,
            Err(e) => { return Err(e); },
        };
        let hhea = match find_required_table_offset(data, fontstart, &t_hhea) {
            Ok(o) => o,
            Err(e) => { return Err(e); },
        };
        let hmtx = match find_required_table_offset(data, fontstart, &t_hmtx) {
            Ok(o) => o,
            Err(e) => { return Err(e); },
        };
        let kern = match find_table_offset(data, fontstart, &t_kern) {
            Ok(Some(o)) => o,
            Ok(None) => 0,
            Err(e) => { return Err(e); },
        };
        let num_glyphs: usize = match find_table_offset(data, fontstart, &t_maxp) {
            Ok(Some(m)) => {
                if m <= data.len() && data.len() - m >= 6 {
                    be_u16(data, m + 4) as usize
                } else {
                    return Err(Error::Malformed);
                }
            },
            Ok(None) => 0xFFFF,
            Err(e) => { return Err(e); },
        };

        // Select the cmap encoding subtable with the best priority; on
        // ties the earliest record wins.
        if cmap > data.len() || data.len() - cmap < 4 {
            return Err(Error::Malformed);
        }
        let num_subtables: usize = be_u16(data, cmap + 2) as usize;
        let base = cmap + 4;
        if data.len() - base < 8 * num_subtables {
            return Err(Error::Malformed);
        }
        let mut best: Option<(u32, usize)> = None;
        let mut j: usize = 0;
        while j < num_subtables
            invariant
                0 <= j <= num_subtables,
                num_subtables <= 0xFFFF,
                base == cmap + 4,
                base + 8 * num_subtables <= data.len(),
                match best {
                    None => best_subtable_upto(data@, base as int, j as int) is None,
                    Some(b) => b.1 < j && best_subtable_upto(data@, base as int, j as int)
                        == Some((b.0 as int, b.1 as int)),
                },
            decreases num_subtables - j,
        {
            let pid = be_u16(data, base + 8 * j);
            let eid = be_u16(data, base + 8 * j + 2);
            match Platform::new(pid, eid) {
                None => {},
                Some(p) => {
                    let sub = crate::tables::cmap::EncodingSubtable { platform: p, offset: 0 };
                    let o = sub.order();
                    match best {
                        None => { best = Some((o, j)); },
                        Some(b) => {
                            if o < b.0 {
                                best = Some((o, j));
                            }
                        },
                    }
                },
            }
            j = j + 1;
        }
        let best_idx = match best {
            None => { return Err(Error::CMAPEncodingSubtableIsNotSupported); },
            Some(b) => b.1,
        };
        let sub_off = be_u32(data, base + 8 * best_idx + 4);
        let index_map = match cmap.checked_add(sub_off as usize) {
            Some(im) => im,
            None => { return Err(Error::Malformed); },
        };

        if head > data.len() || data.len() - head < 52 {
            return Err(Error::Malformed);
        }
        let index_to_loc_format = be_u16(data, head + 50) as usize;

        Ok(FontInfo {
            data,
            fontstart,
            num_glyphs,
            loca,
            head,
            glyf,
            hhea,
            hmtx,
            kern,
            index_map,
            index_to_loc_format,
        })
    }

    /// The big-endian 16-bit integer at `offset`, `Malformed` when the two
    /// bytes are not there.
    pub fn read_u16(&self, offset: usize) -> (r: Result<u16, Error>)
        ensures
            match r {
                Ok(v) => offset + 2 <= self.data@.len() && v as int == u16_at(self.data@, offset as int),
                Err(e) => e == Error::Malformed && offset + 2 > self.data@.len(),
            },
    {
        if offset < self.data.len() && self.data.len() - offset >= 2 {
            Ok(be_u16(self.data, offset))
        } else {
            Err(Error::Malformed)
        }
    }

    /// The offset of the table tagged `tag`, `None` when the directory has
    /// no such entry.
    pub fn find_table(&self, tag: &[u8; 4]) -> (r: Result<Option<usize>, Error>)
        ensures
            match r {
                Ok(Some(off)) => spec_find_table(self.data@, self.fontstart as int, tag@)
                    == Ok::<Option<int>, Error>(Some(off as int)),
                Ok(None) => spec_find_table(self.data@, self.fontstart as int, tag@)
                    == Ok::<Option<int>, Error>(None),
                Err(e) => spec_find_table(self.data@, self.fontstart as int, tag@)
                    == Err::<Option<int>, Error>(e),
            },
    {
        find_table_offset(self.data, self.fontstart, tag)
    }

    /// The offset of the required table tagged `tag`, `MissingTable` when
    /// the directory has no such entry.
    pub fn find_required_table(&self, tag: &[u8; 4]) -> (r: Result<usize, Error>)
        ensures
            match r {
                Ok(off) => spec_required_table(self.data@, self.fontstart as int, tag@)
                    == Ok::<int, Error>(off as int),
                Err(e) => spec_required_table(self.data@, self.fontstart as int, tag@)
                    == Err::<int, Error>(e),
            },
    {
        find_required_table_offset(self.data, self.fontstart, tag)
    }
}

} // verus!
