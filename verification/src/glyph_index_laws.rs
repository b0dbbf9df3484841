//! Laws of the codepoint lookup: on a well-formed single-format subtable,
//! the lookup returns exactly the mapped value the table lists, and glyph 0
//! for every code outside the mapped ranges.

use vstd::prelude::*;
use crate::Error;
use crate::raw::{u16_at, u32_at, i16_at};
use crate::glyph_index::{spec_find_glyph, f4_candidate, f12_group, wrap16};

verus! {

/// In a format 0 subtable whose declared length lies inside the buffer,
/// every code below `length - 6` maps to the table's listed byte, and every
/// other code maps to glyph 0.
pub proof fn lemma_format0_lookup(d: Seq<u8>, im: int, code: int)
    requires
        0 <= im,
        im + 4 <= d.len(),
        u16_at(d, im) == 0,
        im + u16_at(d, im + 2) <= d.len(),
        0 <= code,
    ensures
        code < u16_at(d, im + 2) - 6 ==> spec_find_glyph(d, im, code)
            == Ok::<u32, Error>(d[im + 6 + code] as u32),
        code >= u16_at(d, im + 2) - 6 ==> spec_find_glyph(d, im, code) == Ok::<u32, Error>(0u32),
{
}

/// In a format 6 subtable whose entries all lie inside the buffer, every
/// code in `[firstCode, firstCode + entryCount)` maps to the table's listed
/// 16-bit value, and every other code maps to glyph 0.
pub proof fn lemma_format6_lookup(d: Seq<u8>, im: int, code: int)
    requires
        0 <= im,
        im + 10 <= d.len(),
        u16_at(d, im) == 6,
        im + 10 + 2 * u16_at(d, im + 8) <= d.len(),
        0 <= code,
    ensures
        u16_at(d, im + 6) <= code < u16_at(d, im + 6) + u16_at(d, im + 8)
            ==> spec_find_glyph(d, im, code)
                == Ok::<u32, Error>(u16_at(d, im + 10 + 2 * (code - u16_at(d, im + 6))) as u32),
        !(u16_at(d, im + 6) <= code < u16_at(d, im + 6) + u16_at(d, im + 8))
            ==> spec_find_glyph(d, im, code) == Ok::<u32, Error>(0u32),
{
}

/// The candidate search finds segment `j` when `j` is the first segment
/// whose end code is at least `code`.
proof fn lemma_f4_candidate_finds(d: Seq<u8>, ec: int, n: int, code: int, j: int, from: int)
    requires
        0 <= from <= j < n,
        u16_at(d, ec + 2 * j) >= code,
        forall|k: int| from <= k < j ==> #[trigger] u16_at(d, ec + 2 * k) < code,
    ensures
        f4_candidate(d, ec, n, code, from) == Some(j),
    decreases j - from,
{
    if from < j {
        lemma_f4_candidate_finds(d, ec, n, code, j, from + 1);
    }
}

/// The candidate search finds nothing when no segment's end code reaches
/// `code`.
proof fn lemma_f4_candidate_none(d: Seq<u8>, ec: int, n: int, code: int, from: int)
    requires
        forall|k: int| from <= k < n ==> #[trigger] u16_at(d, ec + 2 * k) < code,
    ensures
        f4_candidate(d, ec, n, code, from) is None,
    decreases n - from,
{
    if from < n {
        lemma_f4_candidate_none(d, ec, n, code, from + 1);
    }
}

/// In a format 4 subtable, when `j` is the first segment whose end code
/// reaches `code` (as the binary search over sorted end codes would find),
/// `code` lies in the segment, and the segment maps directly (zero
/// idRangeOffset), the lookup returns `code + idDelta` wrapped to 16 bits.
pub proof fn lemma_format4_direct_lookup(d: Seq<u8>, im: int, code: int, j: int)
    requires
        0 <= im,
        im + 14 <= d.len(),
        u16_at(d, im) == 4,
        im + 16 + 8 * (u16_at(d, im + 6) / 2) <= d.len(),
        0 <= code <= 0xFFFF,
        0 <= j < u16_at(d, im + 6) / 2,
        u16_at(d, im + 14 + 2 * j) >= code,
        forall|k: int| 0 <= k < j ==> #[trigger] u16_at(d, im + 14 + 2 * k) < code,
        u16_at(d, im + 16 + 2 * (u16_at(d, im + 6) / 2) + 2 * j) <= code,
        u16_at(d, im + 16 + 6 * (u16_at(d, im + 6) / 2) + 2 * j) == 0,
    ensures
        spec_find_glyph(d, im, code) == Ok::<u32, Error>(
            wrap16(code + i16_at(d, im + 16 + 4 * (u16_at(d, im + 6) / 2) + 2 * j)) as u32,
        ),
{
    lemma_f4_candidate_finds(d, im + 14, u16_at(d, im + 6) / 2, code, j, 0);
}

/// In a format 4 subtable, a code that no segment covers (every end code is
/// below it, or it is beyond the 16-bit range) maps to glyph 0.
pub proof fn lemma_format4_unmapped(d: Seq<u8>, im: int, code: int)
    requires
        0 <= im,
        im + 14 <= d.len(),
        u16_at(d, im) == 4,
        im + 16 + 8 * (u16_at(d, im + 6) / 2) <= d.len(),
        0 <= code,
        code > 0xFFFF || forall|k: int|
            0 <= k < u16_at(d, im + 6) / 2 ==> #[trigger] u16_at(d, im + 14 + 2 * k) < code,
    ensures
        spec_find_glyph(d, im, code) == Ok::<u32, Error>(0u32),
{
    if code <= 0xFFFF {
        lemma_f4_candidate_none(d, im + 14, u16_at(d, im + 6) / 2, code, 0);
    }
}

/// The group search finds group `j` when `j` holds `code` and every earlier
/// group ends before `code`.
proof fn lemma_f12_group_finds(d: Seq<u8>, gbase: int, n: int, code: int, j: int, from: int)
    requires
        0 <= from <= j < n,
        u32_at(d, gbase + 12 * j) <= code <= u32_at(d, gbase + 12 * j + 4),
        forall|k: int| from <= k < j ==> #[trigger] u32_at(d, gbase + 12 * k + 4) < code,
    ensures
        f12_group(d, gbase, n, code, from) == Some(j),
    decreases j - from,
{
    if from < j {
        assert(u32_at(d, gbase + 12 * from + 4) < code);
        lemma_f12_group_finds(d, gbase, n, code, j, from + 1);
    }
}

/// The group search finds nothing when no group's range holds `code`.
proof fn lemma_f12_group_none(d: Seq<u8>, gbase: int, n: int, code: int, from: int)
    requires
        forall|k: int| from <= k < n
            ==> !(#[trigger] u32_at(d, gbase + 12 * k) <= code <= u32_at(d, gbase + 12 * k + 4)),
    ensures
        f12_group(d, gbase, n, code, from) is None,
    decreases n - from,
{
    if from < n {
        lemma_f12_group_none(d, gbase, n, code, from + 1);
    }
}

/// In a format 12 or 13 subtable whose groups all lie inside the buffer,
/// a code inside group `j` (with every earlier group ending before `code`,
/// as sorted non-overlapping groups guarantee) maps to
/// `startGlyph + (code - startChar)` under format 12 and to the constant
/// `startGlyph` under format 13.
pub proof fn lemma_format1213_lookup(d: Seq<u8>, im: int, code: int, j: int)
    requires
        0 <= im,
        im + 16 <= d.len(),
        u16_at(d, im) == 12 || u16_at(d, im) == 13,
        im + 16 + 12 * u32_at(d, im + 12) <= d.len(),
        0 <= code,
        0 <= j < u32_at(d, im + 12),
        u32_at(d, im + 16 + 12 * j) <= code <= u32_at(d, im + 16 + 12 * j + 4),
        forall|k: int| 0 <= k < j ==> #[trigger] u32_at(d, im + 16 + 12 * k + 4) < code,
        u32_at(d, im + 16 + 12 * j + 8) + code - u32_at(d, im + 16 + 12 * j) <= 0xFFFF_FFFF,
    ensures
        u16_at(d, im) == 12 ==> spec_find_glyph(d, im, code) == Ok::<u32, Error>(
            (u32_at(d, im + 16 + 12 * j + 8) + code - u32_at(d, im + 16 + 12 * j)) as u32,
        ),
        u16_at(d, im) == 13 ==> spec_find_glyph(d, im, code) == Ok::<u32, Error>(
            u32_at(d, im + 16 + 12 * j + 8) as u32,
        ),
{
    lemma_f12_group_finds(d, im + 16, u32_at(d, im + 12), code, j, 0);
}

/// In a format 12 or 13 subtable whose groups all lie inside the buffer, a
/// code that no group's range holds maps to glyph 0.
pub proof fn lemma_format1213_unmapped(d: Seq<u8>, im: int, code: int)
    requires
        0 <= im,
        im + 16 <= d.len(),
        u16_at(d, im) == 12 || u16_at(d, im) == 13,
        im + 16 + 12 * u32_at(d, im + 12) <= d.len(),
        0 <= code,
        forall|k: int| 0 <= k < u32_at(d, im + 12)
            ==> !(#[trigger] u32_at(d, im + 16 + 12 * k) <= code <= u32_at(d, im + 16 + 12 * k + 4)),
    ensures
        spec_find_glyph(d, im, code) == Ok::<u32, Error>(0u32),
{
    lemma_f12_group_none(d, im + 16, u32_at(d, im + 12), code, 0);
}

} // verus!
