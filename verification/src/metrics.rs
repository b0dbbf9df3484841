//! Font-wide and per-glyph metrics: direct field reads out of `hhea`,
//! `head` and `hmtx`, the kerning-pair lookup, and the sfnt version and
//! collection-offset helpers.

use vstd::prelude::*;
use crate::Error;
use crate::raw::{u16_at, i16_at, u32_at, i32_at, be_u16, be_i16, be_u32};
use crate::types::BBox;
use crate::font::FontInfo;

verus! {

/// Ascent, descent and line gap out of `hhea`, in unscaled font units.
/// You can advance the vertical position by `ascent - descent + line_gap`.
pub fn get_font_vmetrics(info: &FontInfo) -> (r: Result<(i16, i16, i16), Error>)
    ensures
        match r {
            Ok(v) => {
                &&& info.hhea + 10 <= info.data@.len()
                &&& v.0 as int == i16_at(info.data@, info.hhea + 4)
                &&& v.1 as int == i16_at(info.data@, info.hhea + 6)
                &&& v.2 as int == i16_at(info.data@, info.hhea + 8)
            },
            Err(e) => e == Error::Malformed && info.hhea + 10 > info.data@.len(),
        },
{
    let d = info.data;
    if info.hhea > d.len() || d.len() - info.hhea < 10 {
        return Err(Error::Malformed);
    }
    Ok((be_i16(d, info.hhea + 4), be_i16(d, info.hhea + 6), be_i16(d, info.hhea + 8)))
}

/// The font's design grid size, the `unitsPerEm` field of `head`.
pub fn get_units_per_em(info: &FontInfo) -> (r: Result<u16, Error>)
    ensures
        match r {
            Ok(v) => info.head + 20 <= info.data@.len()
                && v as int == u16_at(info.data@, info.head + 18),
            Err(e) => e == Error::Malformed && info.head + 20 > info.data@.len(),
        },
{
    let d = info.data;
    if info.head > d.len() || d.len() - info.head < 20 {
        return Err(Error::Malformed);
    }
    Ok(be_u16(d, info.head + 18))
}

/// The bounding box around all possible characters, out of `head`.
pub fn get_font_bounding_box(info: &FontInfo) -> (r: Result<BBox, Error>)
    ensures
        match r {
            Ok(b) => {
                &&& info.head + 44 <= info.data@.len()
                &&& b.x0 as int == i16_at(info.data@, info.head + 36)
                &&& b.y0 as int == i16_at(info.data@, info.head + 38)
                &&& b.x1 as int == i16_at(info.data@, info.head + 40)
                &&& b.y1 as int == i16_at(info.data@, info.head + 42)
            },
            Err(e) => e == Error::Malformed && info.head + 44 > info.data@.len(),
        },
{
    let d = info.data;
    if info.head > d.len() || d.len() - info.head < 44 {
        return Err(Error::Malformed);
    }
    Ok(BBox {
        x0: be_i16(d, info.head + 36) as i32,
        y0: be_i16(d, info.head + 38) as i32,
        x1: be_i16(d, info.head + 40) as i32,
        y1: be_i16(d, info.head + 42) as i32,
    })
}

/// The advance width and left side bearing of one glyph: the `hmtx` long
/// metric for indices below `numberOfHMetrics`, else the last advance
/// paired with the glyph's bearing from the trailing bearing array.
pub open spec fn spec_glyph_hmetrics(
    d: Seq<u8>,
    hhea: int,
    hmtx: int,
    gi: int,
) -> Result<(int, int), Error> {
    if hhea + 36 > d.len() {
        Err(Error::Malformed)
    } else {
        let n = u16_at(d, hhea + 34);
        if gi < n {
            if hmtx + 4 * gi + 4 <= d.len() {
                Ok((u16_at(d, hmtx + 4 * gi), i16_at(d, hmtx + 4 * gi + 2)))
            } else {
                Err(Error::Malformed)
            }
        } else {
            if n >= 1 && hmtx + 4 * (n - 1) + 2 <= d.len() && hmtx + 4 * n + 2 * (gi - n) + 2
                <= d.len() {
                Ok((u16_at(d, hmtx + 4 * (n - 1)), i16_at(d, hmtx + 4 * n + 2 * (gi - n))))
            } else {
                Err(Error::Malformed)
            }
        }
    }
}

/// leftSideBearing is the offset from the current horizontal position to
/// the left edge of the character; advanceWidth is the offset to the next
/// horizontal position. Both in unscaled font units.
pub fn get_glyph_hmetrics(info: &FontInfo, glyph_index: usize) -> (r: Result<(u16, i16), Error>)
    ensures
        match r {
            Ok(v) => spec_glyph_hmetrics(
                info.data@, info.hhea as int, info.hmtx as int, glyph_index as int,
            ) == Ok::<(int, int), Error>((v.0 as int, v.1 as int)),
            Err(e) => spec_glyph_hmetrics(
                info.data@, info.hhea as int, info.hmtx as int, glyph_index as int,
            ) == Err::<(int, int), Error>(e),
        },
{
    let d = info.data;
    if info.hhea > d.len() || d.len() - info.hhea < 36 {
        return Err(Error::Malformed);
    }
    let n = be_u16(d, info.hhea + 34) as usize;
    if glyph_index < n {
        if info.hmtx <= d.len() && d.len() - info.hmtx >= 4
            && (d.len() - info.hmtx - 4) / 4 >= glyph_index {
            Ok((be_u16(d, info.hmtx + 4 * glyph_index), be_i16(d, info.hmtx + 4 * glyph_index + 2)))
        } else {
            Err(Error::Malformed)
        }
    } else {
        if n >= 1 && info.hmtx <= d.len() && d.len() - info.hmtx >= 2
            && (d.len() - info.hmtx - 2) / 4 >= n - 1
            && d.len() - info.hmtx >= 4 * n + 2
            && (d.len() - info.hmtx - 4 * n - 2) / 2 >= glyph_index - n {
            Ok((
                be_u16(d, info.hmtx + 4 * (n - 1)),
                be_i16(d, info.hmtx + 4 * n + 2 * (glyph_index - n)),
            ))
        } else {
            Err(Error::Malformed)
        }
    }
}

/// The first kerning entry in `[from, n)` whose packed key equals
/// `needle`; entries are 6 bytes at `base`.
pub open spec fn kern_entry(d: Seq<u8>, base: int, n: int, needle: int, from: int) -> Option<int>
    decreases n - from,
{
    if from >= n {
        None
    } else if u32_at(d, base + 6 * from) == needle {
        Some(from)
    } else {
        kern_entry(d, base, n, needle, from + 1)
    }
}

/// The kerning adjustment recorded for a glyph pair: 0 without a `kern`
/// table, without a horizontal format 0 subtable, or without an entry for
/// the pair; else the entry's signed value. The sorted entries are keyed
/// by `glyph1 << 16 | glyph2`.
pub open spec fn spec_kern_advance(d: Seq<u8>, kern: int, g1: int, g2: int) -> Result<int, Error> {
    if kern == 0 {
        Ok(0)
    } else if kern + 12 > d.len() {
        Err(Error::Malformed)
    } else if u16_at(d, kern + 2) < 1 {
        Ok(0)
    } else if u16_at(d, kern + 8) != 1 {
        Ok(0)
    } else {
        let n = u16_at(d, kern + 10);
        if kern + 18 + 6 * n > d.len() {
            Err(Error::Malformed)
        } else {
            match kern_entry(d, kern + 18, n, g1 * 0x10000 + g2, 0) {
                None => Ok(0),
                Some(m) => Ok(i16_at(d, kern + 18 + 6 * m + 4)),
            }
        }
    }
}

/// An additional amount to add to the advance between two glyphs, from the
/// font's optional kerning table.
pub fn get_glyph_kern_advance(info: &FontInfo, glyph1: u16, glyph2: u16) -> (r: Result<i16, Error>)
    ensures
        match r {
            Ok(v) => spec_kern_advance(
                info.data@, info.kern as int, glyph1 as int, glyph2 as int,
            ) == Ok::<int, Error>(v as int),
            Err(e) => spec_kern_advance(
                info.data@, info.kern as int, glyph1 as int, glyph2 as int,
            ) == Err::<int, Error>(e),
        },
{
    let d = info.data;
    let kern = info.kern;
    if kern == 0 {
        return Ok(0);
    }
    if kern > d.len() || d.len() - kern < 12 {
        return Err(Error::Malformed);
    }
    if be_u16(d, kern + 2) < 1 {
        return Ok(0);
    }
    if be_u16(d, kern + 8) != 1 {
        return Ok(0);
    }
    let n = be_u16(d, kern + 10) as usize;
    if d.len() - kern < 18 || (d.len() - kern - 18) / 6 < n {
        return Err(Error::Malformed);
    }
    let base = kern + 18;
    let needle: u32 = glyph1 as u32 * 0x10000 + glyph2 as u32;
    let mut m: usize = 0;
    let mut hit: Option<usize> = None;
    #[verifier::loop_isolation(true)]
    while m < n
        invariant_except_break
            0 <= m <= n,
            base == kern + 18,
            base + 6 * n <= d.len(),
            needle as int == glyph1 * 0x10000 + glyph2,
            hit.is_none(),
            kern_entry(d@, base as int, n as int, needle as int, 0)
                == kern_entry(d@, base as int, n as int, needle as int, m as int),
        ensures
            base + 6 * n <= d.len(),
            match hit {
                None => kern_entry(d@, base as int, n as int, needle as int, 0) is None,
                Some(h) => h < n && kern_entry(d@, base as int, n as int, needle as int, 0)
                    == Some(h as int),
            },
        decreases n - m,
    {
        if be_u32(d, base + 6 * m) == needle {
            hit = Some(m);
            break;
        }
        m = m + 1;
    }
    match hit {
        None => Ok(0),
        Some(h) => Ok(be_i16(d, base + 6 * h + 4)),
    }
}

/// The buffer starts with one of the sfnt version tags this decoder
/// understands.
pub open spec fn spec_isfont(d: Seq<u8>) -> bool {
    &&& d.len() >= 4
    &&& {
        ||| (d[0] == 0x31 && d[1] == 0 && d[2] == 0 && d[3] == 0)
        ||| (d[0] == 0x74 && d[1] == 0x79 && d[2] == 0x70 && d[3] == 0x31)
        ||| (d[0] == 0x4f && d[1] == 0x54 && d[2] == 0x54 && d[3] == 0x4f)
        ||| (d[0] == 0 && d[1] == 1 && d[2] == 0 && d[3] == 0)
    }
}

/// Checks the version tag at the start of a font buffer: TrueType 1,
/// TrueType with type 1 glyphs, OpenType with CFF, or OpenType 1.0.
pub fn isfont(font: &[u8]) -> (r: bool)
    ensures
        r == spec_isfont(font@),
{
    font.len() >= 4 && (
        (font[0] == 0x31 && font[1] == 0 && font[2] == 0 && font[3] == 0)
        || (font[0] == 0x74 && font[1] == 0x79 && font[2] == 0x70 && font[3] == 0x31)
        || (font[0] == 0x4f && font[1] == 0x54 && font[2] == 0x54 && font[3] == 0x4f)
        || (font[0] == 0 && font[1] == 1 && font[2] == 0 && font[3] == 0)
    )
}

/// The start offset of font number `index` in a buffer: 0 for a plain
/// font and index 0, the recorded offset for a version 1 or 2 font
/// collection, and -1 for an out-of-range index, a buffer too short for
/// the recorded offset, or a buffer that is neither.
pub open spec fn spec_font_offset_for_index(d: Seq<u8>, index: int) -> int {
    if spec_isfont(d) {
        if index == 0 {
            0
        } else {
            -1
        }
    } else if d.len() >= 12 && d[0] == 0x74 && d[1] == 0x74 && d[2] == 0x63 && d[3] == 0x66
        && (u32_at(d, 4) == 0x10000 || u32_at(d, 4) == 0x20000) {
        let n = i32_at(d, 8);
        if index >= n {
            -1
        } else if 12 + 4 * index + 4 <= d.len() && u32_at(d, 12 + 4 * index) <= 0x7FFF_FFFF {
            u32_at(d, 12 + 4 * index)
        } else {
            -1
        }
    } else {
        -1
    }
}

/// Each font collection file may have more than one font, with a
/// sequential index starting from 0; a plain font file only has index 0.
/// Returns the font's start offset, or -1 when the index is out of range.
pub fn get_font_offset_for_index(font_collection: &[u8], index: usize) -> (r: i32)
    ensures
        r as int == spec_font_offset_for_index(font_collection@, index as int),
{
    let d = font_collection;
    if isfont(d) {
        return if index == 0 { 0 } else { -1 };
    }
    if d.len() >= 12 && d[0] == 0x74 && d[1] == 0x74 && d[2] == 0x63 && d[3] == 0x66 {
        let ver = be_u32(d, 4);
        if ver == 0x10000 || ver == 0x20000 {
            let n = be_u32(d, 8);
            if n >= 0x8000_0000 {
                // A negative declared count admits no index at all.
                return -1;
            }
            if index as u64 >= n as u64 {
                return -1;
            }
            if d.len() >= 16 && (d.len() - 16) / 4 >= index {
                let off = be_u32(d, 12 + 4 * index);
                if off <= 0x7FFF_FFFF {
                    return off as i32;
                }
            }
            return -1;
        }
    }
    -1
}

} // verus!
