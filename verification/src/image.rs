//! A decoded pixel grid: explicit width and height over row-major RGB bytes.
//!
//! Decoding an image file is the business of the caller; the library works
//! on the bytes it is handed.

use vstd::prelude::*;

verus! {

use vstd::string::StringExecFns;

pub struct Image {
    pub width: i32,
    pub height: i32,
    pub data: Vec<u8>,
}

impl Image {
    /// The grid is consistent: nonnegative extents and exactly three bytes
    /// per pixel.
    pub open spec fn wf(&self) -> bool {
        0 <= self.width && 0 <= self.height && self.data.len() == 3 * self.width * self.height
    }

    /// The channel triple at `(x, y)`: the stored bytes inside the grid, and
    /// the sentinel magenta outside it, so a sampling bug shows in the
    /// output instead of stopping a long render.
    pub open spec fn spec_pixel(&self, x: int, y: int) -> (u8, u8, u8) {
        if x < 0 || y < 0 || x >= self.width || y >= self.height {
            (255u8, 0u8, 255u8)
        } else {
            (
                self.data[(y * self.width + x) * 3],
                self.data[(y * self.width + x) * 3 + 1],
                self.data[(y * self.width + x) * 3 + 2],
            )
        }
    }

    /// A grid from its extents and bytes; rejected unless the byte count
    /// matches the extents.
    pub fn new(width: i32, height: i32, data: Vec<u8>) -> (r: Result<Image, String>)
        ensures
            (width >= 0 && height >= 0 && data.len() == 3 * width * height) <==> r is Ok,
            r matches Ok(img) ==> img == (Image { width, height, data }) && img.wf(),
    {
        if width < 0 || height < 0 {
            return Err(String::from_str("image extents must be nonnegative"));
        }
        proof {
            assert(3 * (width as int) * (height as int) <= 0xC000_0000_0000_0000int)
                by (nonlinear_arith)
                requires
                    0 <= width as int,
                    (width as int) < 0x8000_0000,
                    0 <= height as int,
                    (height as int) < 0x8000_0000,
            ;
        }
        let expected: u64 = 3u64 * (width as u64) * (height as u64);
        if (data.len() as u64) != expected {
            return Err(String::from_str("pixel data does not match the extents"));
        }
        Ok(Image { width, height, data })
    }

    /// The channel triple at `(x, y)`, magenta outside the grid.
    pub fn pixel_data(&self, x: i32, y: i32) -> (r: (u8, u8, u8))
        requires
            self.wf(),
        ensures
            r == self.spec_pixel(x as int, y as int),
    {
        if x < 0 || y < 0 || x >= self.width || y >= self.height {
            return (255, 0, 255);
        }
        proof {
            assert(0 <= (y as int) * (self.width as int) + (x as int) && ((y as int) * (
            self.width as int) + (x as int)) * 3 + 2 < 3 * self.width * self.height)
                by (nonlinear_arith)
                requires
                    0 <= x as int,
                    (x as int) < self.width as int,
                    0 <= y as int,
                    (y as int) < self.height as int,
            ;
        }
        proof {
            assert(((y as int) * (self.width as int) + (x as int)) * 3 < 0x1_0000_0000_0000_0000int)
                by (nonlinear_arith)
                requires
                    0 <= x as int,
                    (x as int) < self.width as int,
                    (self.width as int) < 0x8000_0000,
                    0 <= y as int,
                    (y as int) < 0x8000_0000,
            ;
        }
        let index_wide: u64 = ((y as u64) * (self.width as u64) + (x as u64)) * 3;
        assert(index_wide + 2 < self.data.len());
        let index: usize = index_wide as usize;
        (self.data[index], self.data[index + 1], self.data[index + 2])
    }
}

} // verus!
