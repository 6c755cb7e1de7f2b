use vstd::prelude::*;

use crate::pixel::Pixel;

verus! {

/// A flat, row-major raster of RGBA pixels.
///
/// The well-formedness invariant ties the three fields together: the buffer
/// holds exactly `width * height` pixels. Every mutation of this crate
/// re-establishes it.
pub struct PixelBuffer {
    pub data: Vec<Pixel>,
    pub width: usize,
    pub height: usize,
}

impl PixelBuffer {
    /// `data` holds one pixel per cell of a `width` by `height` grid.
    pub open spec fn wf(self) -> bool {
        self.data@.len() == self.width * self.height
    }

    /// Wraps a flat pixel vector whose length matches the given dimensions.
    pub fn new(data: Vec<Pixel>, width: usize, height: usize) -> (buf: PixelBuffer)
        requires
            data@.len() == width * height,
        ensures
            buf.wf(),
            buf.data == data,
            buf.width == width,
            buf.height == height,
    {
        PixelBuffer { data, width, height }
    }
}

/// Flat index of the pixel at column `pixel_x`, row `pixel_y` of a row-major
/// raster that is `image_width` pixels wide.
pub fn get_pixel_index(pixel_x: usize, pixel_y: usize, image_width: usize) -> (i: usize)
    requires
        pixel_y * image_width + pixel_x <= usize::MAX,
    ensures
        i == pixel_y * image_width + pixel_x,
{
    pixel_y * image_width + pixel_x
}

/// Splices `pixels` into `buf` just before position `pos`, or appends them
/// when `pos` lies at or beyond the end; returns how many were inserted.
pub fn insert_pixels(buf: &mut Vec<Pixel>, pos: usize, pixels: Vec<Pixel>) -> (count: usize)
    requires
        old(buf)@.len() + pixels@.len() <= usize::MAX,
    ensures
        count == pixels@.len(),
        pos >= old(buf)@.len() ==> final(buf)@ == old(buf)@ + pixels@,
        pos < old(buf)@.len() ==> final(buf)@ == old(buf)@.subrange(0, pos as int)
            + pixels@ + old(buf)@.subrange(pos as int, old(buf)@.len() as int),
{
    let count = pixels.len();
    if pos >= buf.len() {
        let mut tail = pixels;
        buf.append(&mut tail);
    } else {
        let ghost orig = buf@;
        let mut k: usize = 0;
        while k < count
            invariant
                k <= count,
                count == pixels@.len(),
                pos < orig.len(),
                orig.len() + count <= usize::MAX,
                buf@ == orig.subrange(0, pos as int) + pixels@.subrange(0, k as int)
                    + orig.subrange(pos as int, orig.len() as int),
            decreases count - k,
        {
            buf.insert(pos + k, pixels[k]);
            proof {
                assert(buf@ =~= orig.subrange(0, pos as int)
                    + pixels@.subrange(0, k + 1 as int)
                    + orig.subrange(pos as int, orig.len() as int));
            }
            k = k + 1;
        }
        proof {
            assert(pixels@.subrange(0, count as int) =~= pixels@);
        }
    }
    count
}

} // verus!
