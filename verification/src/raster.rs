//! A plain RGB raster, the output of every composition operation.
//!
//! The raster is the crate's only output type: callers are expected to
//! encode it to whatever image file format they want.
use crate::palette::Rgb;
use vstd::arithmetic::div_mod::{lemma_fundamental_div_mod, lemma_mod_division_less_than_divisor};
use vstd::prelude::*;

verus! {

/// For `0 <= x < n * d`, dividing by `d` lands in block `x / d`, below
/// `n`, at in-block offset `x % d`, below `d`.
pub proof fn lemma_block_index(x: int, d: int, n: int)
    requires
        0 < d,
        0 <= x < n * d,
    ensures
        0 <= x / d < n,
        0 <= x % d < d,
{
    lemma_fundamental_div_mod(x, d);
    lemma_mod_division_less_than_divisor(x, d);
    assert(0 <= x / d < n) by (nonlinear_arith)
        requires
            x == d * (x / d) + x % d,
            0 <= x % d < d,
            0 <= x < n * d,
            0 < d,
    ;
}

/// An owned RGB raster: `width * height` pixels, row-major, origin
/// top-left.
pub struct Raster {
    pub width: u32,
    pub height: u32,
    pub pixels: Vec<Rgb>,
}

impl View for Raster {
    type V = Seq<Rgb>;

    open spec fn view(&self) -> Seq<Rgb> {
        self.pixels@
    }
}

impl Raster {
    /// A raster holds exactly one pixel per coordinate.
    pub open spec fn wf(&self) -> bool {
        self.pixels@.len() == self.width * self.height
    }

    /// The flat index of the pixel at `(x, y)`.
    pub open spec fn spec_index_of(&self, x: int, y: int) -> int {
        y * self.width + x
    }

    /// The pixel at `(x, y)`.
    pub fn get(&self, x: u32, y: u32) -> (p: Rgb)
        requires
            self.wf(),
            x < self.width,
            y < self.height,
        ensures
            p == self@[self.spec_index_of(x as int, y as int)],
    {
        let n = self.pixels.len();
        proof {
            assert(y * self.width + x < self.width * self.height) by (nonlinear_arith)
                requires
                    x < self.width,
                    y < self.height,
            ;
            assert(y * self.width + x < n);
        }
        let idx_wide: u64 = (y as u64) * (self.width as u64) + (x as u64);
        let idx: usize = idx_wide as usize;
        self.pixels[idx]
    }

    /// Overwrite the pixel at `(x, y)`, leaving every other pixel and the
    /// dimensions unchanged.
    pub fn set(&mut self, x: u32, y: u32, p: Rgb)
        requires
            old(self).wf(),
            x < old(self).width,
            y < old(self).height,
        ensures
            final(self).width == old(self).width,
            final(self).height == old(self).height,
            final(self).wf(),
            final(self)@ == old(self)@.update(old(self).spec_index_of(x as int, y as int), p),
    {
        let n = self.pixels.len();
        proof {
            assert(y * self.width + x < self.width * self.height) by (nonlinear_arith)
                requires
                    x < self.width,
                    y < self.height,
            ;
            assert(y * self.width + x < n);
        }
        let idx_wide: u64 = (y as u64) * (self.width as u64) + (x as u64);
        let idx: usize = idx_wide as usize;
        self.pixels[idx] = p;
    }
}

} // verus!
