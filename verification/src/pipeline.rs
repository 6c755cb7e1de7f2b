use vstd::prelude::*;

use crate::buffer::PixelBuffer;
use crate::extrude::extruded;
use crate::resize::{gutter_height, gutter_width, resized};

verus! {

impl PixelBuffer {
    /// The per-image processing core: grow the tile-packed buffer with
    /// blank gutter space at every tile boundary, then extrude each tile's
    /// border pixels into its gutter ring.
    pub fn resize_and_extrude(&mut self, tile_interior_size: usize)
        requires
            old(self).wf(),
            tile_interior_size >= 1,
            tile_interior_size <= usize::MAX - 2,
            old(self).width % tile_interior_size == 0,
            old(self).height % tile_interior_size == 0,
            gutter_width(old(self).width as int, tile_interior_size as int) <= usize::MAX,
            gutter_height(old(self).height as int, tile_interior_size as int) <= usize::MAX,
            gutter_width(old(self).width as int, tile_interior_size as int) * gutter_height(
                old(self).height as int,
                tile_interior_size as int,
            ) <= usize::MAX,
        ensures
            final(self).wf(),
            final(self).width == gutter_width(old(self).width as int, tile_interior_size as int),
            final(self).height == gutter_height(old(self).height as int, tile_interior_size as int),
            final(self).data@ == extruded(
                resized(
                    old(self).data@,
                    old(self).width as int,
                    old(self).height as int,
                    tile_interior_size as int,
                ),
                gutter_width(old(self).width as int, tile_interior_size as int),
                gutter_height(old(self).height as int, tile_interior_size as int),
                tile_interior_size as int,
            ),
    {
        self.resize_with_gutters(tile_interior_size);
        self.extrude_tiles(tile_interior_size);
    }
}

} // verus!
