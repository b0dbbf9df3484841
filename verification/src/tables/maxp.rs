//! The `maxp` table: the font's maximum profile, read for its glyph count.

use vstd::prelude::*;
use crate::Error;
use crate::types::Fixed;
use crate::raw::{u16_at, i32_at, be_u16, be_i32};

verus! {

/// A maximum profile.
///
/// The 'maxp' table establishes the memory requirements for a font; only
/// the version and the glyph count are read.
#[derive(Debug, PartialEq, Eq, Clone, Copy, Structural)]
pub struct MAXP {
    pub version: Fixed,
    pub num_glyphs: u16,
}

impl MAXP {
    /// Returns `maxp` font table.
    ///
    /// Attempts to read `data` starting from `offset` position.
    ///
    /// # Errors
    /// Returns error if there is not enough data to read or version of
    /// the `maxp` font table is not supported.
    pub fn from_data(data: &[u8], offset: usize) -> (r: Result<MAXP, Error>)
        ensures
            match r {
                Ok(m) => {
                    &&& offset + 6 <= data@.len()
                    &&& (i32_at(data@, offset as int) == 0x10000
                        || i32_at(data@, offset as int) == 0x5000)
                    &&& m.version.0 as int == i32_at(data@, offset as int)
                    &&& m.num_glyphs as int == u16_at(data@, offset + 4)
                },
                Err(Error::MAXPVersionIsNotSupported) => {
                    &&& offset < data@.len()
                    &&& offset + 4 <= data@.len()
                    &&& i32_at(data@, offset as int) != 0x10000
                    &&& i32_at(data@, offset as int) != 0x5000
                },
                Err(Error::Malformed) => offset >= data@.len() || offset + 4 > data@.len()
                    || ((i32_at(data@, offset as int) == 0x10000
                        || i32_at(data@, offset as int) == 0x5000)
                        && offset + 6 > data@.len()),
                Err(_) => false,
            },
    {
        if offset >= data.len() || data.len() - offset < 4 {
            return Err(Error::Malformed);
        }
        let version = be_i32(data, offset);
        if version != 0x10000 && version != 0x5000 {
            return Err(Error::MAXPVersionIsNotSupported);
        }
        if data.len() - offset < 6 {
            return Err(Error::Malformed);
        }
        Ok(MAXP { version: Fixed(version), num_glyphs: be_u16(data, offset + 4) })
    }

    /// Returns the number of glyphs in the font.
    pub fn num_glyphs(&self) -> (r: u32)
        ensures
            r == self.num_glyphs as u32,
    {
        self.num_glyphs as u32
    }
}

} // verus!
