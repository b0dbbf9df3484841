//! Codepoint-to-glyph-index lookup: decoding of cmap subtable formats
//! 0, 4, 6, 12 and 13 over the raw bytes, bounds-checked.

use vstd::prelude::*;
use crate::Error;
use crate::raw::{u16_at, i16_at, u32_at, be_u16, be_i16, be_u32};
use crate::font::FontInfo;

verus! {

/// `x` reduced to the 16-bit unsigned range: the mod-65536 wrap of
/// `code + idDelta`, written for the single-wrap range that sum can reach.
pub open spec fn wrap16(x: int) -> int {
    if x < 0 {
        x + 0x10000
    } else if x >= 0x10000 {
        x - 0x10000
    } else {
        x
    }
}

/// Format 0 (byte encoding): codes below `length - 6` index a byte table
/// at `im + 6`; anything else maps to glyph 0.
pub open spec fn spec_f0(d: Seq<u8>, im: int, code: int) -> Result<u32, Error> {
    if im + 4 > d.len() {
        Err(Error::Malformed)
    } else {
        let bytes = u16_at(d, im + 2);
        if code < bytes - 6 {
            if im + 6 + code + 1 <= d.len() {
                Ok(d[im + 6 + code] as u32)
            } else {
                Err(Error::Malformed)
            }
        } else {
            Ok(0)
        }
    }
}

/// Format 6 (trimmed range): codes in `[firstCode, firstCode + entryCount)`
/// index a 16-bit table at `im + 10`; anything else maps to glyph 0.
pub open spec fn spec_f6(d: Seq<u8>, im: int, code: int) -> Result<u32, Error> {
    if im + 10 > d.len() {
        Err(Error::Malformed)
    } else {
        let first = u16_at(d, im + 6);
        let count = u16_at(d, im + 8);
        if first <= code < first + count {
            let off = im + 10 + 2 * (code - first);
            if off + 2 <= d.len() {
                Ok(u16_at(d, off) as u32)
            } else {
                Err(Error::Malformed)
            }
        } else {
            Ok(0)
        }
    }
}

/// The first format 4 segment index in `[from, n)` whose end code is at
/// least `code`. `ec` is the byte offset of the endCode array.
pub open spec fn f4_candidate(d: Seq<u8>, ec: int, n: int, code: int, from: int) -> Option<int>
    decreases n - from,
{
    if from >= n {
        None
    } else if u16_at(d, ec + 2 * from) >= code {
        Some(from)
    } else {
        f4_candidate(d, ec, n, code, from + 1)
    }
}

/// Format 4 (segmented mapping): find the candidate segment by end code,
/// validate `code >= startCode`; a zero idRangeOffset maps through
/// `code + idDelta` mod 65536, a nonzero one reads the glyphIdArray at
/// `idRangeOffset/2 + (code - startCode) + segmentIndex`.
pub open spec fn spec_f4(d: Seq<u8>, im: int, code: int) -> Result<u32, Error> {
    if im + 14 > d.len() {
        Err(Error::Malformed)
    } else {
        let segcount = u16_at(d, im + 6) / 2;
        if im + 16 + 8 * segcount > d.len() {
            Err(Error::Malformed)
        } else if code > 0xFFFF {
            Ok(0)
        } else {
            let ec = im + 14;
            match f4_candidate(d, ec, segcount, code, 0) {
                None => Ok(0),
                Some(i) => {
                    let start = u16_at(d, im + 16 + 2 * segcount + 2 * i);
                    if code < start {
                        Ok(0)
                    } else {
                        let ro = u16_at(d, im + 16 + 6 * segcount + 2 * i);
                        let delta = i16_at(d, im + 16 + 4 * segcount + 2 * i);
                        if ro == 0 {
                            Ok(wrap16(code + delta) as u32)
                        } else {
                            let addr = im + 16 + 8 * segcount + 2 * (ro / 2 + (code - start) + i);
                            if addr + 2 <= d.len() {
                                Ok(u16_at(d, addr) as u32)
                            } else {
                                Err(Error::Malformed)
                            }
                        }
                    }
                },
            }
        }
    }
}

/// The first group in `[from, n)` whose `[startChar, endChar]` range holds
/// `code`. `gbase` is the byte offset of the group array (12-byte groups).
pub open spec fn f12_group(d: Seq<u8>, gbase: int, n: int, code: int, from: int) -> Option<int>
    decreases n - from,
{
    if from >= n {
        None
    } else if u32_at(d, gbase + 12 * from) <= code && code <= u32_at(d, gbase + 12 * from + 4) {
        Some(from)
    } else {
        f12_group(d, gbase, n, code, from + 1)
    }
}

/// Formats 12 and 13 (segmented coverage): search the sorted groups for one
/// holding `code`; format 12 maps to `startGlyph + (code - startChar)`,
/// format 13 maps the whole group to the constant `startGlyph`.
pub open spec fn spec_f12(d: Seq<u8>, im: int, code: int, format: int) -> Result<u32, Error> {
    if im + 16 > d.len() {
        Err(Error::Malformed)
    } else {
        let ngroups = u32_at(d, im + 12);
        if im + 16 + 12 * ngroups > d.len() {
            Err(Error::Malformed)
        } else {
            match f12_group(d, im + 16, ngroups, code, 0) {
                None => Ok(0),
                Some(g) => {
                    let start = u32_at(d, im + 16 + 12 * g);
                    let glyph = u32_at(d, im + 16 + 12 * g + 8);
                    if format == 12 {
                        let v = glyph + code - start;
                        Ok((if v > 0xFFFF_FFFF { v - 0x1_0000_0000 } else { v }) as u32)
                    } else {
                        Ok(glyph as u32)
                    }
                },
            }
        }
    }
}

/// The glyph index for `code` under the subtable at `im`: dispatch on the
/// format tag; format 2 and unknown tags are unsupported.
pub open spec fn spec_find_glyph(d: Seq<u8>, im: int, code: int) -> Result<u32, Error> {
    if im + 2 > d.len() {
        Err(Error::Malformed)
    } else {
        let format = u16_at(d, im);
        if format == 0 {
            spec_f0(d, im, code)
        } else if format == 4 {
            spec_f4(d, im, code)
        } else if format == 6 {
            spec_f6(d, im, code)
        } else if format == 12 || format == 13 {
            spec_f12(d, im, code, format)
        } else {
            Err(Error::CMAPFormatIsNotSupported)
        }
    }
}

/// If you're going to perform multiple operations on the same character
/// and you want a speed-up, call this function with the character you're
/// going to process, then use glyph-based functions instead of the
/// codepoint-based functions.
pub fn find_glyph_index(info: &FontInfo, unicode_codepoint: u32) -> (r: Result<u32, Error>)
    ensures
        r == spec_find_glyph(info.data@, info.index_map as int, unicode_codepoint as int),
{
    let d = info.data;
    let im = info.index_map;
    let code = unicode_codepoint;
    if im > d.len() || d.len() - im < 2 {
        return Err(Error::Malformed);
    }
    let format = be_u16(d, im);
    if format == 0 {
        if d.len() - im < 4 {
            return Err(Error::Malformed);
        }
        let bytes = be_u16(d, im + 2);
        if bytes >= 6 && (code as u64) < bytes as u64 - 6 {
            if d.len() - im >= 6 && ((d.len() - im - 6) as u64) > code as u64 {
                Ok(d[im + 6 + code as usize] as u32)
            } else {
                Err(Error::Malformed)
            }
        } else {
            Ok(0)
        }
    } else if format == 4 {
        if d.len() - im < 14 {
            return Err(Error::Malformed);
        }
        let segcount = (be_u16(d, im + 6) / 2) as usize;
        if d.len() - im < 16 || d.len() - im - 16 < 8 * segcount {
            return Err(Error::Malformed);
        }
        if code > 0xFFFF {
            return Ok(0);
        }
        let ec = im + 14;
        let mut i: usize = 0;
        let mut cand: Option<usize> = None;
        #[verifier::loop_isolation(true)]
        while i < segcount
            invariant_except_break
                0 <= i <= segcount,
                segcount <= 0x7FFF,
                im + 16 + 8 * segcount <= d.len(),
                ec == im + 14,
                cand.is_none(),
                f4_candidate(d@, ec as int, segcount as int, code as int, 0)
                    == f4_candidate(d@, ec as int, segcount as int, code as int, i as int),
            ensures
                match cand {
                    None => f4_candidate(d@, ec as int, segcount as int, code as int, 0)
                        is None,
                    Some(c) => c < segcount && f4_candidate(
                        d@, ec as int, segcount as int, code as int, 0) == Some(c as int),
                },
            decreases segcount - i,
        {
            if be_u16(d, ec + 2 * i) as u32 >= code {
                cand = Some(i);
                break;
            }
            i = i + 1;
        }
        match cand {
            None => Ok(0),
            Some(i) => {
                let start = be_u16(d, im + 16 + 2 * segcount + 2 * i);
                if code < start as u32 {
                    return Ok(0);
                }
                let ro = be_u16(d, im + 16 + 6 * segcount + 2 * i);
                let delta = be_i16(d, im + 16 + 4 * segcount + 2 * i);
                if ro == 0 {
                    let sum: i32 = code as i32 + delta as i32;
                    let v: u32 = if sum < 0 {
                        (sum + 0x10000) as u32
                    } else if sum >= 0x10000 {
                        (sum - 0x10000) as u32
                    } else {
                        sum as u32
                    };
                    Ok(v)
                } else {
                    // The u16 units between the glyphIdArray start and the
                    // indexed entry; all three summands stay far below 2^32.
                    let idx: u64 = (ro / 2) as u64 + (code as u64 - start as u64) + i as u64;
                    let gia = im + 16 + 8 * segcount;
                    if ((d.len() - gia) as u64) >= 2 && idx <= ((d.len() - gia) as u64 - 2) / 2 {
                        proof {
                            assert(idx <= usize::MAX as u64);
                        }
                        Ok(be_u16(d, gia + 2 * (idx as usize)) as u32)
                    } else {
                        Err(Error::Malformed)
                    }
                }
            },
        }
    } else if format == 6 {
        if d.len() - im < 10 {
            return Err(Error::Malformed);
        }
        let first = be_u16(d, im + 6);
        let count = be_u16(d, im + 8);
        if first as u32 <= code && code < first as u32 + count as u32 {
            let rel = (code - first as u32) as usize;
            if d.len() - im >= 10 && (d.len() - im - 10) / 2 >= rel + 1 {
                Ok(be_u16(d, im + 10 + 2 * rel) as u32)
            } else {
                Err(Error::Malformed)
            }
        } else {
            Ok(0)
        }
    } else if format == 12 || format == 13 {
        if d.len() - im < 16 {
            return Err(Error::Malformed);
        }
        let ngroups = be_u32(d, im + 12) as usize;
        if (((d.len() - im - 16) / 12) as u64) < ngroups as u64 {
            return Err(Error::Malformed);
        }
        let gbase = im + 16;
        let mut i: usize = 0;
        let mut found: Option<usize> = None;
        #[verifier::loop_isolation(true)]
        while i < ngroups
            invariant_except_break
                0 <= i <= ngroups,
                gbase == im + 16,
                gbase + 12 * ngroups <= d.len(),
                found.is_none(),
                f12_group(d@, gbase as int, ngroups as int, code as int, 0)
                    == f12_group(d@, gbase as int, ngroups as int, code as int, i as int),
            ensures
                gbase + 12 * ngroups <= d.len(),
                match found {
                    None => f12_group(d@, gbase as int, ngroups as int, code as int, 0)
                        is None,
                    Some(g) => g < ngroups
                        && f12_group(d@, gbase as int, ngroups as int, code as int, 0)
                            == Some(g as int)
                        && u32_at(d@, gbase + 12 * g) <= code as int,
                },
            decreases ngroups - i,
        {
            let s = be_u32(d, gbase + 12 * i);
            let e = be_u32(d, gbase + 12 * i + 4);
            if s <= code && code <= e {
                found = Some(i);
                break;
            }
            i = i + 1;
        }
        match found {
            None => Ok(0),
            Some(g) => {
                let start = be_u32(d, gbase + 12 * g);
                let glyph = be_u32(d, gbase + 12 * g + 8);
                if format == 12 {
                    let v: u64 = glyph as u64 + (code - start) as u64;
                    let w: u64 = if v > 0xFFFF_FFFF { v - 0x1_0000_0000 } else { v };
                    Ok(w as u32)
                } else {
                    Ok(glyph)
                }
            },
        }
    } else {
        Err(Error::CMAPFormatIsNotSupported)
    }
}

} // verus!
