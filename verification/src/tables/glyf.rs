//! The `glyf` table: raw glyph records, and the header reads on one record.

use vstd::prelude::*;
use crate::Error;
use crate::types::BBox;
use crate::raw::{i16_at, be_i16};
use crate::raw::slice_range;

verus! {

/// The raw bytes of the `glyf` table.
#[derive(Debug, PartialEq, Eq, Clone)]
pub struct GLYF {
    pub bytes: Vec<u8>,
}

impl GLYF {
    /// Copies the `size` bytes of the `glyf` table at `offset` out of the
    /// file.
    pub fn from_data(data: &[u8], offset: usize, size: usize) -> (r: Result<GLYF, Error>)
        ensures
            match r {
                Ok(g) => {
                    &&& offset + size <= data@.len()
                    &&& g.bytes@ == data@.subrange(offset as int, offset + size)
                },
                Err(e) => e == Error::Malformed && offset + size > data@.len(),
            },
    {
        if offset > data.len() || data.len() - offset < size {
            return Err(Error::Malformed);
        }
        let mut bytes: Vec<u8> = Vec::new();
        let mut i: usize = offset;
        while i < offset + size
            invariant
                offset <= i <= offset + size,
                offset + size <= data@.len(),
                bytes@ == data@.subrange(offset as int, i as int),
            decreases offset + size - i,
        {
            bytes.push(data[i]);
            proof {
                assert(bytes@ =~= data@.subrange(offset as int, i + 1));
            }
            i = i + 1;
        }
        Ok(GLYF { bytes })
    }

    /// Returns instance of `GlyphData` starting from `offset` position.
    ///
    /// `offset` could be taken from the `loca` font table; an offset at
    /// or past the table's end falls back to the table's start.
    pub fn glyph_data(&self, offset: usize) -> (r: GlyphData)
        ensures
            r.bytes@ == (if offset >= self.bytes@.len() {
                self.bytes@
            } else {
                self.bytes@.subrange(offset as int, self.bytes@.len() as int)
            }),
    {
        let z = if offset >= self.bytes.len() {
            0
        } else {
            offset
        };
        let n = self.bytes.len();
        GlyphData { bytes: slice_range(self.bytes.as_slice(), z, n) }
    }
}

/// Contains data for the glyph.
#[derive(Debug)]
pub struct GlyphData<'a> {
    pub bytes: &'a [u8],
}

impl<'a> GlyphData<'a> {
    /// Returns the number of contours in the glyph; 0 when the record is
    /// too short to hold the field.
    pub fn number_of_contours(&self) -> (r: i32)
        ensures
            r as int == (if self.bytes@.len() >= 2 {
                i16_at(self.bytes@, 0)
            } else {
                0int
            }),
    {
        if self.bytes.len() >= 2 {
            be_i16(self.bytes, 0) as i32
        } else {
            0
        }
    }

    /// Returns `true` if nothing is drawn for this glyph.
    pub fn is_empty(&self) -> (r: bool)
        ensures
            r == (self.bytes@.len() < 2 || i16_at(self.bytes@, 0) == 0),
    {
        self.number_of_contours() == 0
    }

    /// Returns the bounding box of the glyph.
    pub fn bounding_box(&self) -> (r: Option<BBox>)
        ensures
            r == (if self.bytes@.len() >= 10 {
                Some(BBox {
                    x0: i16_at(self.bytes@, 2) as i32,
                    y0: i16_at(self.bytes@, 4) as i32,
                    x1: i16_at(self.bytes@, 6) as i32,
                    y1: i16_at(self.bytes@, 8) as i32,
                })
            } else {
                None::<BBox>
            }),
    {
        if self.bytes.len() < 10 {
            return None;
        }
        Some(BBox {
            x0: be_i16(self.bytes, 2) as i32,
            y0: be_i16(self.bytes, 4) as i32,
            x1: be_i16(self.bytes, 6) as i32,
            y1: be_i16(self.bytes, 8) as i32,
        })
    }
}

} // verus!
