//! The coverage bitmap: per-pixel coverage bytes, row by row.

use vstd::prelude::*;

verus! {

/// An 8-bit coverage bitmap: `w` columns, `h` rows, rows `stride` bytes
/// apart, 0 is no coverage and 255 full coverage.
#[derive(Debug, PartialEq, Eq, Clone)]
pub struct Bitmap {
    pub w: usize,
    pub h: usize,
    pub stride: usize,
    pub pixels: Vec<u8>,
}

impl Bitmap {
    /// The dimensions and the buffer agree.
    pub open spec fn wf(self) -> bool {
        &&& self.stride >= self.w
        &&& self.pixels@.len() == self.stride * self.h
    }

    /// A bitmap of the requested dimensions with every pixel zero, or
    /// `None` when the pixel count overflows the address space.
    pub fn new(w: usize, h: usize) -> (r: Option<Bitmap>)
        ensures
            match r {
                Some(b) => {
                    &&& b.wf()
                    &&& b.w == w
                    &&& b.h == h
                    &&& b.stride == w
                    &&& b.pixels@.len() == w * h
                    &&& forall|i: int| 0 <= i < b.pixels@.len() ==> b.pixels@[i] == 0u8
                },
                None => w * h > usize::MAX,
            },
    {
        let n = match w.checked_mul(h) {
            Some(n) => n,
            None => { return None; },
        };
        let mut pixels: Vec<u8> = Vec::new();
        let mut i: usize = 0;
        while i < n
            invariant
                0 <= i <= n,
                pixels@.len() == i,
                forall|k: int| 0 <= k < i ==> pixels@[k] == 0u8,
            decreases n - i,
        {
            pixels.push(0);
            i = i + 1;
        }
        Some(Bitmap { w, h, stride: w, pixels })
    }

    /// The coverage byte of one pixel.
    pub fn get(&self, x: usize, y: usize) -> (r: u8)
        requires
            self.wf(),
            x < self.w,
            y < self.h,
        ensures
            r == self.pixels@[y * self.stride + x],
    {
        let n = self.pixels.len();
        proof {
            assert(y * self.stride + x < self.stride * self.h) by (nonlinear_arith)
                requires
                    y < self.h,
                    x < self.w,
                    self.w <= self.stride,
            ;
            assert(y * self.stride + x < n);
        }
        self.pixels[y * self.stride + x]
    }

    /// Writes the coverage byte of one pixel; every other byte stays.
    pub fn set(&mut self, x: usize, y: usize, v: u8)
        requires
            old(self).wf(),
            x < old(self).w,
            y < old(self).h,
        ensures
            final(self).wf(),
            final(self).w == old(self).w,
            final(self).h == old(self).h,
            final(self).stride == old(self).stride,
            final(self).pixels@ == old(self).pixels@.update(
                old(self).stride * y + x, v,
            ),
    {
        let n = self.pixels.len();
        let sw = self.w;
        let sh = self.h;
        let st = self.stride;
        proof {
            assert(y * st + x < st * sh) by (nonlinear_arith)
                requires
                    y < sh,
                    x < sw,
                    sw <= st,
            ;
            assert(y * st + x < n);
            assert(y * st + x == st * y + x);
        }
        let idx = y * self.stride + x;
        self.pixels.set(idx, v);
    }
}

} // verus!
