//! The `head` table: global information about the font.

use vstd::prelude::*;
use crate::Error;
use crate::types::{BBox, Fixed, LocationFormat};
use crate::raw::{u16_at, i16_at, u32_at, i32_at, i64_at, be_u16, be_i16, be_u32, be_i32, be_i64};

verus! {

/// A font header.
///
/// The 'head' table contains global information about the font.
#[derive(Debug, PartialEq, Eq, Clone, Copy, Structural)]
pub struct HEAD {
    pub version: Fixed,
    pub font_revision: Fixed,
    pub check_sum_adjustment: u32,
    pub magic_number: u32,
    pub flags: u16,
    pub units_per_em: u16,
    pub created: i64,
    pub modified: i64,
    pub x_min: i16,
    pub y_min: i16,
    pub x_max: i16,
    pub y_max: i16,
    pub mac_style: u16,
    pub lowest_rec_ppem: u16,
    pub font_direction_hint: i16,
    pub index_to_loc_format: i16,
    pub glyph_data_format: i16,
}

impl HEAD {
    /// The struct's fields are the table's fields at `offset`.
    pub open spec fn from_bytes(self, d: Seq<u8>, offset: int) -> bool {
        &&& self.version.0 as int == i32_at(d, offset)
        &&& self.font_revision.0 as int == i32_at(d, offset + 4)
        &&& self.check_sum_adjustment as int == u32_at(d, offset + 8)
        &&& self.magic_number as int == u32_at(d, offset + 12)
        &&& self.flags as int == u16_at(d, offset + 16)
        &&& self.units_per_em as int == u16_at(d, offset + 18)
        &&& self.created as int == i64_at(d, offset + 20)
        &&& self.modified as int == i64_at(d, offset + 28)
        &&& self.x_min as int == i16_at(d, offset + 36)
        &&& self.y_min as int == i16_at(d, offset + 38)
        &&& self.x_max as int == i16_at(d, offset + 40)
        &&& self.y_max as int == i16_at(d, offset + 42)
        &&& self.mac_style as int == u16_at(d, offset + 44)
        &&& self.lowest_rec_ppem as int == u16_at(d, offset + 46)
        &&& self.font_direction_hint as int == i16_at(d, offset + 48)
        &&& self.index_to_loc_format as int == i16_at(d, offset + 50)
        &&& self.glyph_data_format as int == i16_at(d, offset + 52)
    }

    /// Returns `head` font table.
    ///
    /// Attempts to read `data` starting from `offset` position.
    ///
    /// # Errors
    /// Returns error if there is not enough data to read or version of
    /// the `head` font table is not supported.
    pub fn from_data(data: &[u8], offset: usize) -> (r: Result<HEAD, Error>)
        ensures
            match r {
                Ok(h) => {
                    &&& offset + 54 <= data@.len()
                    &&& i32_at(data@, offset as int) == 0x10000
                    &&& h.from_bytes(data@, offset as int)
                },
                Err(Error::HEADVersionIsNotSupported) => {
                    &&& offset < data@.len()
                    &&& offset + 4 <= data@.len()
                    &&& i32_at(data@, offset as int) != 0x10000
                },
                Err(Error::Malformed) => offset >= data@.len() || offset + 4 > data@.len()
                    || (i32_at(data@, offset as int) == 0x10000 && offset + 54 > data@.len()),
                Err(_) => false,
            },
    {
        if offset >= data.len() || data.len() - offset < 4 {
            return Err(Error::Malformed);
        }
        let version = be_i32(data, offset);
        if version != 0x10000 {
            return Err(Error::HEADVersionIsNotSupported);
        }
        if data.len() - offset < 54 {
            return Err(Error::Malformed);
        }
        Ok(HEAD {
            version: Fixed(version),
            font_revision: Fixed(be_i32(data, offset + 4)),
            check_sum_adjustment: be_u32(data, offset + 8),
            magic_number: be_u32(data, offset + 12),
            flags: be_u16(data, offset + 16),
            units_per_em: be_u16(data, offset + 18),
            created: be_i64(data, offset + 20),
            modified: be_i64(data, offset + 28),
            x_min: be_i16(data, offset + 36),
            y_min: be_i16(data, offset + 38),
            x_max: be_i16(data, offset + 40),
            y_max: be_i16(data, offset + 42),
            mac_style: be_u16(data, offset + 44),
            lowest_rec_ppem: be_u16(data, offset + 46),
            font_direction_hint: be_i16(data, offset + 48),
            index_to_loc_format: be_i16(data, offset + 50),
            glyph_data_format: be_i16(data, offset + 52),
        })
    }

    /// Returns the number of units per em for the font.
    ///
    /// This value should be a power of 2. Its range is from 64 through 16384.
    pub fn units_per_em(&self) -> (r: u16)
        ensures
            r == self.units_per_em,
    {
        self.units_per_em
    }

    /// Returns the bounding box around all possible characters.
    pub fn bounding_box(&self) -> (r: BBox)
        ensures
            r == (BBox {
                x0: self.x_min as i32,
                y0: self.y_min as i32,
                x1: self.x_max as i32,
                y1: self.y_max as i32,
            }),
    {
        BBox {
            x0: self.x_min as i32,
            y0: self.y_min as i32,
            x1: self.x_max as i32,
            y1: self.y_max as i32,
        }
    }

    /// The raw `indexToLocFormat` field.
    pub fn index_to_loc_format(&self) -> (r: i16)
        ensures
            r == self.index_to_loc_format,
    {
        self.index_to_loc_format
    }

    /// The `loca` entry format the header selects: 0 is short, 1 is long,
    /// anything else is unknown.
    pub fn location_format(&self) -> (r: Result<LocationFormat, Error>)
        ensures
            r == (match self.index_to_loc_format {
                0i16 => Ok::<LocationFormat, Error>(LocationFormat::Short),
                1i16 => Ok::<LocationFormat, Error>(LocationFormat::Long),
                _ => Err::<LocationFormat, Error>(Error::UnknownLocationFormat),
            }),
    {
        match self.index_to_loc_format {
            0 => Ok(LocationFormat::Short),
            1 => Ok(LocationFormat::Long),
            _ => Err(Error::UnknownLocationFormat),
        }
    }
}

} // verus!
