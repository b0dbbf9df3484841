//! Codepoint-level entry points: each resolves the codepoint through the
//! cmap lookup and hands the glyph index to the glyph-level function.

use vstd::prelude::*;
use crate::Error;
use crate::types::BBox;
use crate::font::FontInfo;
use crate::glyph_index::{find_glyph_index, spec_find_glyph};
use crate::shape::{
    get_glyph_shape, get_glyph_box, spec_glyph_shape, spec_glyph_box, shape_matches, GlyphShape,
    ShapeModel,
};
use crate::metrics::{get_glyph_hmetrics, get_glyph_kern_advance, spec_glyph_hmetrics, spec_kern_advance};

verus! {

/// Decodes the glyph a codepoint maps to; see `get_glyph_shape`.
pub fn get_codepoint_shape(info: &FontInfo, unicode_codepoint: u32) -> (r: Result<GlyphShape, Error>)
    ensures
        match spec_find_glyph(info.data@, info.index_map as int, unicode_codepoint as int) {
            Err(e) => r == Err::<GlyphShape, Error>(e),
            Ok(gi) => match r {
                Ok(s) => spec_glyph_shape(
                    info.data@, info.loca as int, info.glyf as int, info.num_glyphs as int,
                    info.index_to_loc_format as int, gi as int,
                ) matches Ok(m) && shape_matches(s, m),
                Err(e) => spec_glyph_shape(
                    info.data@, info.loca as int, info.glyf as int, info.num_glyphs as int,
                    info.index_to_loc_format as int, gi as int,
                ) == Err::<ShapeModel, Error>(e),
            },
        },
{
    let gi = match find_glyph_index(info, unicode_codepoint) {
        Ok(gi) => gi,
        Err(e) => { return Err(e); },
    };
    get_glyph_shape(info, gi as usize)
}

/// The bounding box of the glyph a codepoint maps to, in unscaled
/// coordinates; see `get_glyph_box`.
pub fn get_codepoint_box(info: &FontInfo, unicode_codepoint: u32) -> (r: Result<Option<BBox>, Error>)
    ensures
        match spec_find_glyph(info.data@, info.index_map as int, unicode_codepoint as int) {
            Err(e) => r == Err::<Option<BBox>, Error>(e),
            Ok(gi) => r == spec_glyph_box(
                info.data@, info.loca as int, info.glyf as int, info.num_glyphs as int,
                info.index_to_loc_format as int, gi as int,
            ),
        },
{
    let gi = match find_glyph_index(info, unicode_codepoint) {
        Ok(gi) => gi,
        Err(e) => { return Err(e); },
    };
    get_glyph_box(info, gi as usize)
}

/// The horizontal metrics of the glyph a codepoint maps to; see
/// `get_glyph_hmetrics`.
pub fn get_codepoint_hmetrics(info: &FontInfo, unicode_codepoint: u32) -> (r: Result<(u16, i16), Error>)
    ensures
        match spec_find_glyph(info.data@, info.index_map as int, unicode_codepoint as int) {
            Err(e) => r == Err::<(u16, i16), Error>(e),
            Ok(gi) => match r {
                Ok(v) => spec_glyph_hmetrics(
                    info.data@, info.hhea as int, info.hmtx as int, gi as int,
                ) == Ok::<(int, int), Error>((v.0 as int, v.1 as int)),
                Err(e) => spec_glyph_hmetrics(
                    info.data@, info.hhea as int, info.hmtx as int, gi as int,
                ) == Err::<(int, int), Error>(e),
            },
        },
{
    let gi = match find_glyph_index(info, unicode_codepoint) {
        Ok(gi) => gi,
        Err(e) => { return Err(e); },
    };
    get_glyph_hmetrics(info, gi as usize)
}

/// The kerning between the glyphs two codepoints map to, each glyph index
/// reduced to its low 16 bits as the packed kern key stores it. Without a
/// kerning table the codepoints are not even looked up.
pub fn get_codepoint_kern_advance(info: &FontInfo, ch1: u32, ch2: u32) -> (r: Result<i16, Error>)
    ensures
        info.kern == 0 ==> r == Ok::<i16, Error>(0i16),
        info.kern != 0 ==> match (
            spec_find_glyph(info.data@, info.index_map as int, ch1 as int),
            spec_find_glyph(info.data@, info.index_map as int, ch2 as int),
        ) {
            (Ok(g1), Ok(g2)) => match r {
                Ok(v) => spec_kern_advance(
                    info.data@, info.kern as int, (g1 as u16) as int, (g2 as u16) as int,
                ) == Ok::<int, Error>(v as int),
                Err(e) => spec_kern_advance(
                    info.data@, info.kern as int, (g1 as u16) as int, (g2 as u16) as int,
                ) == Err::<int, Error>(e),
            },
            (Err(e), _) => r == Err::<i16, Error>(e),
            (Ok(_), Err(e)) => r == Err::<i16, Error>(e),
        },
{
    if info.kern == 0 {
        // Without a kerning table, don't waste time on the two lookups.
        return Ok(0);
    }
    let g1 = match find_glyph_index(info, ch1) {
        Ok(g) => g,
        Err(e) => { return Err(e); },
    };
    let g2 = match find_glyph_index(info, ch2) {
        Ok(g) => g,
        Err(e) => { return Err(e); },
    };
    get_glyph_kern_advance(info, #[verifier::truncate] (g1 as u16), #[verifier::truncate] (g2 as u16))
}

} // verus!
