//! The `loca` table: the offsets of the glyphs inside the `glyf` table.

use vstd::prelude::*;
use crate::Error;
use crate::types::LocationFormat;
use crate::raw::{u16_at, u32_at, be_u16, be_u32};

verus! {

/// A location table.
///
/// The 'loca' table stores the offsets to the locations of the glyphs
/// in the font relative to the beginning of the 'glyf' table.
#[derive(Debug, PartialEq, Eq, Clone)]
pub struct LOCA {
    pub offsets: Vec<u32>,
    pub format: LocationFormat,
}

/// The glyph offset entry `k` of a location table at `offset`: a short
/// entry stores half the byte offset in 16 bits, a long entry stores it
/// whole in 32 bits.
pub open spec fn spec_loca_entry(d: Seq<u8>, offset: int, lf: LocationFormat, k: int) -> int {
    match lf {
        LocationFormat::Short => 2 * u16_at(d, offset + 2 * k),
        LocationFormat::Long => u32_at(d, offset + 4 * k),
    }
}

impl LOCA {
    /// Returns `loca` font table.
    ///
    /// Attempts to read `data` starting from `offset` position.
    /// `glyphs` is a number of glyphs in the font.
    /// `lf` is a location format.
    ///
    /// # Errors
    /// Returns error if there is not enough data to read.
    pub fn from_data(data: &[u8], offset: usize, glyphs: u32, lf: LocationFormat) -> (r: Result<LOCA, Error>)
        ensures
            ({
                let entry = match lf {
                    LocationFormat::Short => 2int,
                    LocationFormat::Long => 4int,
                };
                match r {
                    Ok(l) => {
                        &&& offset < data@.len()
                        &&& offset + entry * (glyphs + 1) <= data@.len()
                        &&& l.format == lf
                        &&& l.offsets@.len() == glyphs + 1
                        &&& forall|k: int| 0 <= k < glyphs + 1
                            ==> l.offsets@[k] as int == spec_loca_entry(data@, offset as int, lf, k)
                    },
                    Err(e) => e == Error::Malformed && (offset >= data@.len()
                        || offset + entry * (glyphs + 1) > data@.len()),
                }
            }),
    {
        if offset >= data.len() {
            return Err(Error::Malformed);
        }
        let count_w: u64 = glyphs as u64 + 1;
        let mut offsets: Vec<u32> = Vec::new();
        match lf {
            LocationFormat::Short => {
                if ((data.len() - offset) as u64) < 2 * count_w {
                    return Err(Error::Malformed);
                }
                let count = count_w as usize;
                let mut k: usize = 0;
                while k < count
                    invariant
                        0 <= k <= count,
                        offset + 2 * count <= data@.len(),
                        offsets@.len() == k,
                        forall|t: int| 0 <= t < k ==> offsets@[t] as int
                            == spec_loca_entry(data@, offset as int, LocationFormat::Short, t),
                    decreases count - k,
                {
                    offsets.push(be_u16(data, offset + 2 * k) as u32 * 2);
                    k = k + 1;
                }
            },
            LocationFormat::Long => {
                if ((data.len() - offset) as u64) < 4 * count_w {
                    return Err(Error::Malformed);
                }
                let count = count_w as usize;
                let mut k: usize = 0;
                while k < count
                    invariant
                        0 <= k <= count,
                        offset + 4 * count <= data@.len(),
                        offsets@.len() == k,
                        forall|t: int| 0 <= t < k ==> offsets@[t] as int
                            == spec_loca_entry(data@, offset as int, LocationFormat::Long, t),
                    decreases count - k,
                {
                    offsets.push(be_u32(data, offset + 4 * k));
                    k = k + 1;
                }
            },
        }
        Ok(LOCA { offsets, format: lf })
    }

    /// The byte size of the `glyf` table that the final entry records.
    pub fn size_of_glyf_table(&self) -> (r: u32)
        requires
            self.offsets@.len() > 0,
        ensures
            r == self.offsets@[self.offsets@.len() - 1],
    {
        self.offsets[self.offsets.len() - 1]
    }

    /// The table serialized back to its big-endian bytes.
    pub fn bytes(&self) -> (r: Vec<u8>)
        ensures
            ({
                let entry = match self.format {
                    LocationFormat::Short => 2int,
                    LocationFormat::Long => 4int,
                };
                &&& r@.len() == entry * self.offsets@.len()
                &&& forall|k: int| 0 <= k < self.offsets@.len()
                    ==> spec_loca_entry(r@, 0, self.format, k)
                        == (match self.format {
                            LocationFormat::Short => (self.offsets@[k] / 2) as int % 0x10000 * 2,
                            LocationFormat::Long => self.offsets@[k] as int,
                        })
            }),
    {
        let mut out: Vec<u8> = Vec::new();
        let n = self.offsets.len();
        match self.format {
            LocationFormat::Short => {
                let mut k: usize = 0;
                while k < n
                    invariant
                        0 <= k <= n,
                        n == self.offsets@.len(),
                        self.format == LocationFormat::Short,
                        out@.len() == 2 * k,
                        forall|t: int| 0 <= t < k ==> u16_at(out@, 2 * t)
                            == (self.offsets@[t] / 2) as int % 0x10000,
                    decreases n - k,
                {
                    let half: u32 = self.offsets[k] / 2;
                    let hi: u8 = ((half / 0x100) % 0x100) as u8;
                    let lo: u8 = (half % 0x100) as u8;
                    out.push(hi);
                    out.push(lo);
                    proof {
                        assert(u16_at(out@, 2 * k as int) == (self.offsets@[k as int] / 2) as int
                            % 0x10000) by (nonlinear_arith)
                            requires
                                out@.len() == 2 * k + 2,
                                out@[2 * k as int] == ((self.offsets@[k as int] / 2) as int
                                    / 0x100) % 0x100,
                                out@[2 * k + 1] == (self.offsets@[k as int] / 2) as int % 0x100,
                                u16_at(out@, 2 * k as int) == out@[2 * k as int] * 0x100
                                    + out@[2 * k + 1],
                        ;
                        assert(forall|t: int| 0 <= t < k ==> u16_at(out@, 2 * t)
                            == (self.offsets@[t] / 2) as int % 0x10000);
                    }
                    k = k + 1;
                }
            },
            LocationFormat::Long => {
                let mut k: usize = 0;
                while k < n
                    invariant
                        0 <= k <= n,
                        n == self.offsets@.len(),
                        self.format == LocationFormat::Long,
                        out@.len() == 4 * k,
                        forall|t: int| 0 <= t < k ==> u32_at(out@, 4 * t) == self.offsets@[t] as int,
                    decreases n - k,
                {
                    let v: u32 = self.offsets[k];
                    out.push((v / 0x100_0000) as u8);
                    out.push(((v / 0x1_0000) % 0x100) as u8);
                    out.push(((v / 0x100) % 0x100) as u8);
                    out.push((v % 0x100) as u8);
                    proof {
                        assert(u32_at(out@, 4 * k as int) == self.offsets@[k as int] as int)
                            by (nonlinear_arith)
                            requires
                                out@.len() == 4 * k + 4,
                                out@[4 * k as int] == (self.offsets@[k as int] as int)
                                    / 0x100_0000,
                                out@[4 * k + 1] == ((self.offsets@[k as int] as int)
                                    / 0x1_0000) % 0x100,
                                out@[4 * k + 2] == ((self.offsets@[k as int] as int)
                                    / 0x100) % 0x100,
                                out@[4 * k + 3] == (self.offsets@[k as int] as int) % 0x100,
                                self.offsets@[k as int] < 0x1_0000_0000,
                                u32_at(out@, 4 * k as int) == out@[4 * k as int] * 0x100_0000
                                    + out@[4 * k + 1] * 0x1_0000 + out@[4 * k + 2] * 0x100
                                    + out@[4 * k + 3],
                        ;
                        assert(forall|t: int| 0 <= t < k
                            ==> u32_at(out@, 4 * t) == self.offsets@[t] as int);
                    }
                    k = k + 1;
                }
            },
        }
        out
    }
}

} // verus!
