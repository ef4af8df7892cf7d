//! Images held as ranks, one triple per pixel.

use vstd::prelude::*;

verus! {

/// An image of `width` by `height` pixels, stored row by row.
#[derive(Clone, Debug)]
pub struct RtwImage {
    pub width: u32,
    pub height: u32,
    pub float_pixels: Vec<[i64; 3]>,
}

impl RtwImage {
    /// The pixels, row by row.
    pub open spec fn pixels(&self) -> Seq<[i64; 3]> {
        self.float_pixels@
    }

    /// There is one pixel for every place of the raster.
    pub open spec fn wf(&self) -> bool {
        self.pixels().len() == self.width * self.height
    }

    /// An image over the given pixels, if there is one pixel for every place
    /// of the raster.
    pub fn new(width: u32, height: u32, float_pixels: Vec<[i64; 3]>) -> (image: Option<RtwImage>)
        ensures
            image is Some <==> float_pixels@.len() == width * height,
            image matches Some(img) ==> img.wf() && img.width == width && img.height == height
                && img.pixels() == float_pixels@,
    {
        proof {
            assert(width * height <= 0xFFFF_FFFF * 0xFFFF_FFFF) by (nonlinear_arith)
                requires
                    width <= 0xFFFF_FFFF,
                    height <= 0xFFFF_FFFF,
            ;
        }
        if float_pixels.len() as u64 == (width as u64) * (height as u64) {
            Some(RtwImage { width, height, float_pixels })
        } else {
            None
        }
    }

    /// The pixel in column `x` of row `y`.
    pub fn pixel_data(&self, x: u32, y: u32) -> (pixel: [i64; 3])
        requires
            self.wf(),
            x < self.width,
            y < self.height,
        ensures
            pixel == self.pixels()[y * self.width + x],
    {
        proof {
            assert(0 <= y * self.width && y * self.width + x < self.width * self.height)
                by (nonlinear_arith)
                requires
                    0 <= x < self.width,
                    0 <= y < self.height,
            ;
        }
        let count = self.float_pixels.len();
        assert(y * self.width + x < count);
        self.float_pixels[y as usize * self.width as usize + x as usize]
    }
}

} // verus!
