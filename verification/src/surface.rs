//! A rendered frame as RGBA pixels, and reading single pixels out of it.

use vstd::prelude::*;

verus! {

/// A rendered frame: rows of `width` RGBA pixels, top row first.
pub struct RenderedCanvas {
    pub width: u32,
    pub rgba: Vec<u8>,
}

impl RenderedCanvas {
    /// The number of complete rows of pixels the frame holds.
    pub open spec fn height_spec(&self) -> int {
        ((self.rgba@.len() as u32) / 4) as int / self.width as int
    }

    /// The byte offset of pixel `(x, y)`.
    pub open spec fn offset(&self, x: u32, y: u32) -> int {
        (y * self.width + x) * 4
    }

    /// The number of complete rows of pixels the frame holds.
    pub fn height(&self) -> (r: u32)
        requires
            self.width > 0,
        ensures
            r == self.height_spec(),
    {
        #[verifier::truncate]
        let bytes = self.rgba.len() as u32;
        (bytes / 4) / self.width
    }

    /// The red, green and blue of the pixel at column `x` of row `y`.
    pub fn pixel(&self, x: u32, y: u32) -> (r: (u8, u8, u8))
        requires
            x < self.width,
            y < self.height_spec(),
        ensures
            r == (
                self.rgba@[self.offset(x, y)],
                self.rgba@[self.offset(x, y) + 1],
                self.rgba@[self.offset(x, y) + 2],
            ),
    {
        let h = self.height();
        let w = self.width;
        proof {
            let l: usize = self.rgba.len();
            assert((l as u32) as usize <= l) by (bit_vector);
            let len = (l as u32) as int;
            assert(y * w + x < h * w) by (nonlinear_arith)
                requires
                    x < w,
                    y < h,
            ;
            assert(h * w <= len / 4) by (nonlinear_arith)
                requires
                    h == (len / 4) / (w as int),
                    w > 0,
                    len >= 0,
            ;
        }
        let i = ((y * w + x) * 4) as usize;
        (self.rgba[i], self.rgba[i + 1], self.rgba[i + 2])
    }
}

} // verus!
