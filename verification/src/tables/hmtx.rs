//! The `hmtx` table: per-glyph horizontal metrics.

use vstd::prelude::*;
use crate::Error;
use crate::raw::{u16_at, i16_at, be_u16, be_i16};

verus! {

/// A record of horizontal metrics.
#[derive(Debug, PartialEq, Eq, Clone, Copy, Structural)]
pub struct LongHorizontalMetric {
    pub advance_width: u16,
    pub left_side_bearing: i16,
}

/// A table of horizontal metrics.
///
/// The 'hmtx' table contains metric information for the horizontal layout
/// each of the glyphs in the font.
#[derive(Debug, PartialEq, Eq, Clone)]
pub struct HMTX {
    pub metrics: Vec<LongHorizontalMetric>,
    pub left_side_bearings: Vec<i16>,
}

impl HMTX {
    /// Returns `hmtx` font table.
    ///
    /// Attempts to read `data` starting from `offset` position.
    /// `metrics` is a number of long horizontal metrics taken from `hhea`
    /// font table.
    /// `glyphs` is a number of glyphs in the font.
    ///
    /// # Errors
    /// Returns error if there is not enough data to read or the number of
    /// `metrics` is greater than the number of `glyphs`.
    pub fn from_data(data: &[u8], offset: usize, metrics: u32, glyphs: u32) -> (r: Result<HMTX, Error>)
        ensures
            match r {
                Ok(h) => {
                    &&& offset < data@.len()
                    &&& metrics <= glyphs
                    &&& offset + 4 * metrics + 2 * (glyphs - metrics) <= data@.len()
                    &&& h.metrics@.len() == metrics
                    &&& forall|k: int| 0 <= k < metrics ==> h.metrics@[k]
                        == (LongHorizontalMetric {
                            advance_width: u16_at(data@, offset + 4 * k) as u16,
                            left_side_bearing: i16_at(data@, offset + 4 * k + 2) as i16,
                        })
                    &&& h.left_side_bearings@.len() == glyphs - metrics
                    &&& forall|k: int| 0 <= k < glyphs - metrics
                        ==> h.left_side_bearings@[k] as int
                            == i16_at(data@, offset + 4 * metrics + 2 * k)
                },
                Err(e) => e == Error::Malformed && (offset >= data@.len() || metrics > glyphs
                    || offset + 4 * metrics + 2 * (glyphs - metrics) > data@.len()),
            },
    {
        if offset >= data.len() {
            return Err(Error::Malformed);
        }
        if metrics > glyphs {
            return Err(Error::Malformed);
        }
        let m = metrics as usize;
        let bearings = (glyphs - metrics) as usize;
        if ((data.len() - offset) as u64) < 4 * (m as u64) + 2 * (bearings as u64) {
            return Err(Error::Malformed);
        }
        let mut out_metrics: Vec<LongHorizontalMetric> = Vec::new();
        let mut k: usize = 0;
        while k < m
            invariant
                0 <= k <= m,
                offset + 4 * m + 2 * bearings <= data@.len(),
                out_metrics@.len() == k,
                forall|t: int| 0 <= t < k ==> out_metrics@[t] == (LongHorizontalMetric {
                    advance_width: u16_at(data@, offset + 4 * t) as u16,
                    left_side_bearing: i16_at(data@, offset + 4 * t + 2) as i16,
                }),
            decreases m - k,
        {
            out_metrics.push(LongHorizontalMetric {
                advance_width: be_u16(data, offset + 4 * k),
                left_side_bearing: be_i16(data, offset + 4 * k + 2),
            });
            k = k + 1;
        }
        let base = offset + 4 * m;
        let mut out_bearings: Vec<i16> = Vec::new();
        let mut k: usize = 0;
        while k < bearings
            invariant
                0 <= k <= bearings,
                base == offset + 4 * m,
                base + 2 * bearings <= data@.len(),
                out_bearings@.len() == k,
                forall|t: int| 0 <= t < k
                    ==> out_bearings@[t] as int == i16_at(data@, base + 2 * t),
            decreases bearings - k,
        {
            out_bearings.push(be_i16(data, base + 2 * k));
            k = k + 1;
        }
        Ok(HMTX { metrics: out_metrics, left_side_bearings: out_bearings })
    }
}

} // verus!
