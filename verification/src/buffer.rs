use vstd::prelude::*;

use crate::color::RGBColor;

verus! {

/// An in-memory image: a fixed-size grid of pixels stored row-major,
/// so the pixel at column `x` of row `y` sits at index `y * width + x`.
pub struct PixelBuffer {
    pub width: u32,
    pub height: u32,
    pub pixels: Vec<RGBColor>,
}

impl PixelBuffer {
    /// The storage holds exactly one pixel per coordinate.
    pub open spec fn wf(self) -> bool {
        self.pixels@.len() == self.width * self.height
    }

    /// The pixel at column `x` of row `y`.
    pub open spec fn pixel(self, x: int, y: int) -> RGBColor {
        self.pixels@[y * self.width + x]
    }

    pub fn width(&self) -> (w: u32)
        ensures
            w == self.width,
    {
        self.width
    }

    pub fn height(&self) -> (h: u32)
        ensures
            h == self.height,
    {
        self.height
    }

    /// Read one pixel by its coordinates.
    pub fn get(&self, x: u32, y: u32) -> (p: RGBColor)
        requires
            self.wf(),
            x < self.width,
            y < self.height,
        ensures
            p == self.pixel(x as int, y as int),
    {
        // Reading the length tells the verifier that the storage, and so
        // the row-major index below, fits in a machine word.
        let _len: usize = self.pixels.len();
        proof {
            lemma_row_major_index(x as int, y as int, self.width as int, self.height as int);
        }
        let idx: usize = (y as usize) * (self.width as usize) + (x as usize);
        self.pixels[idx]
    }
}

/// A coordinate inside the grid falls inside the row-major storage.
pub proof fn lemma_row_major_index(x: int, y: int, w: int, h: int)
    requires
        0 <= x < w,
        0 <= y < h,
    ensures
        0 <= y * w + x < h * w,
    decreases h,
{
    if y + 1 < h {
        lemma_row_major_index(x, y, w, h - 1);
        assert((h - 1) * w <= h * w) by (nonlinear_arith)
            requires 0 < w, 0 < h;
    } else {
        assert(0 <= y * w + x < h * w) by (nonlinear_arith)
            requires 0 <= x < w, 0 <= y < h, y + 1 >= h;
    }
}

} // verus!
