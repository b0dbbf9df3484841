//! The `hhea` table: the horizontal layout header.

use vstd::prelude::*;
use crate::Error;
use crate::types::Fixed;
use crate::raw::{u16_at, i16_at, i32_at, be_u16, be_i16, be_i32};

verus! {

/// A horizontal header.
///
/// This table contains information needed to layout fonts whose characters
/// are written horizontally, that is, either left to right or right to left.
///
/// The table provides such properties as: `ascent`, `descent` and `line_gap`,
/// these are expressed in unscaled coordinates, so you must multiply by
/// the scale factor for a given size. You can advance the vertical position by
/// `ascent - descent + line_gap`.
#[derive(Debug, PartialEq, Eq, Clone, Copy, Structural)]
pub struct HHEA {
    pub version: Fixed,
    pub ascent: i16,
    pub descent: i16,
    pub line_gap: i16,
    pub advance_width_max: u16,
    pub min_left_side_bearing: i16,
    pub min_right_side_bearing: i16,
    pub x_max_extent: i16,
    pub caret_slope_rise: i16,
    pub caret_slope_run: i16,
    pub caret_offset: i16,
    pub reserved1: i16,
    pub reserved2: i16,
    pub reserved3: i16,
    pub reserved4: i16,
    pub metric_data_format: i16,
    pub num_of_long_hor_metrics: u16,
}

impl HHEA {
    /// The struct's fields are the table's fields at `offset`.
    pub open spec fn from_bytes(self, d: Seq<u8>, offset: int) -> bool {
        &&& self.version.0 as int == i32_at(d, offset)
        &&& self.ascent as int == i16_at(d, offset + 4)
        &&& self.descent as int == i16_at(d, offset + 6)
        &&& self.line_gap as int == i16_at(d, offset + 8)
        &&& self.advance_width_max as int == u16_at(d, offset + 10)
        &&& self.min_left_side_bearing as int == i16_at(d, offset + 12)
        &&& self.min_right_side_bearing as int == i16_at(d, offset + 14)
        &&& self.x_max_extent as int == i16_at(d, offset + 16)
        &&& self.caret_slope_rise as int == i16_at(d, offset + 18)
        &&& self.caret_slope_run as int == i16_at(d, offset + 20)
        &&& self.caret_offset as int == i16_at(d, offset + 22)
        &&& self.reserved1 as int == i16_at(d, offset + 24)
        &&& self.reserved2 as int == i16_at(d, offset + 26)
        &&& self.reserved3 as int == i16_at(d, offset + 28)
        &&& self.reserved4 as int == i16_at(d, offset + 30)
        &&& self.metric_data_format as int == i16_at(d, offset + 32)
        &&& self.num_of_long_hor_metrics as int == u16_at(d, offset + 34)
    }

    /// Returns `hhea` font table.
    ///
    /// Attempts to read `data` starting from `offset` position.
    ///
    /// # Errors
    /// Returns error if there is not enough data to read or version of
    /// the `hhea` font table is not supported.
    pub fn from_data(data: &[u8], offset: usize) -> (r: Result<HHEA, Error>)
        ensures
            match r {
                Ok(h) => {
                    &&& offset + 36 <= data@.len()
                    &&& i32_at(data@, offset as int) == 0x10000
                    &&& h.from_bytes(data@, offset as int)
                },
                Err(Error::HHEAVersionIsNotSupported) => {
                    &&& offset < data@.len()
                    &&& offset + 4 <= data@.len()
                    &&& i32_at(data@, offset as int) != 0x10000
                },
                Err(Error::Malformed) => offset >= data@.len() || offset + 4 > data@.len()
                    || (i32_at(data@, offset as int) == 0x10000 && offset + 36 > data@.len()),
                Err(_) => false,
            },
    {
        if offset >= data.len() || data.len() - offset < 4 {
            return Err(Error::Malformed);
        }
        let version = be_i32(data, offset);
        if version != 0x10000 {
            return Err(Error::HHEAVersionIsNotSupported);
        }
        if data.len() - offset < 36 {
            return Err(Error::Malformed);
        }
        Ok(HHEA {
            version: Fixed(version),
            ascent: be_i16(data, offset + 4),
            descent: be_i16(data, offset + 6),
            line_gap: be_i16(data, offset + 8),
            advance_width_max: be_u16(data, offset + 10),
            min_left_side_bearing: be_i16(data, offset + 12),
            min_right_side_bearing: be_i16(data, offset + 14),
            x_max_extent: be_i16(data, offset + 16),
            caret_slope_rise: be_i16(data, offset + 18),
            caret_slope_run: be_i16(data, offset + 20),
            caret_offset: be_i16(data, offset + 22),
            reserved1: be_i16(data, offset + 24),
            reserved2: be_i16(data, offset + 26),
            reserved3: be_i16(data, offset + 28),
            reserved4: be_i16(data, offset + 30),
            metric_data_format: be_i16(data, offset + 32),
            num_of_long_hor_metrics: be_u16(data, offset + 34),
        })
    }

    /// Distance from baseline of highest ascender.
    pub fn ascent(&self) -> (r: i32)
        ensures
            r == self.ascent as i32,
    {
        self.ascent as i32
    }

    /// Distance from baseline of lowest descender (i.e. it is typically negative).
    pub fn descent(&self) -> (r: i32)
        ensures
            r == self.descent as i32,
    {
        self.descent as i32
    }

    /// The spacing between one row's descent and the next row's ascent.
    pub fn line_gap(&self) -> (r: i32)
        ensures
            r == self.line_gap as i32,
    {
        self.line_gap as i32
    }

    /// The number of advance widths in metrics table.
    pub fn num_of_long_hor_metrics(&self) -> (r: u32)
        ensures
            r == self.num_of_long_hor_metrics as u32,
    {
        self.num_of_long_hor_metrics as u32
    }
}

} // verus!
