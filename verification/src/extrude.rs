use vstd::prelude::*;

use vstd::arithmetic::div_mod::{
    lemma_div_pos_is_pos, lemma_fundamental_div_mod, lemma_fundamental_div_mod_converse,
    lemma_mod_division_less_than_divisor,
};
use vstd::arithmetic::mul::{
    lemma_mul_inequality, lemma_mul_is_commutative, lemma_mul_is_distributive_add,
    lemma_mul_is_distributive_add_other_way, lemma_mul_nonnegative,
};

use crate::buffer::PixelBuffer;
use crate::pixel::Pixel;

verus! {

/// Width of one tile cell in a gutter-sized sheet: the interior plus one
/// gutter pixel on each side.
pub open spec fn tile_stride(tile_interior_size: int) -> int {
    tile_interior_size + 2
}

/// Offset toward the tile interior along one axis: a pixel on the leading
/// gutter line copies from one step further in, one on the trailing gutter
/// line from one step back, and an interior coordinate stays put.
pub open spec fn gutter_step(l: int, stride: int) -> int {
    if l == 0 {
        1
    } else if l == stride - 1 {
        -1
    } else {
        0
    }
}

/// The local coordinate pair lies on the one-pixel border ring of its tile.
pub open spec fn on_gutter_ring(lx: int, ly: int, stride: int) -> bool {
    lx == 0 || lx == stride - 1 || ly == 0 || ly == stride - 1
}

/// The pixel at flat index `i` lies inside one of the grid's full tiles.
/// Remainder pixels beyond the last full stride in either direction belong
/// to no tile.
pub open spec fn in_full_tile(i: int, width: int, height: int, stride: int) -> bool {
    (i % width) / stride < width / stride && (i / width) / stride < height / stride
}

/// Flat index of the pixel that a gutter pixel at flat index `i` copies
/// from: its diagonal, vertical or horizontal inward neighbor.
pub open spec fn extrusion_source(i: int, width: int, stride: int) -> int {
    let px = i % width;
    let py = i / width;
    (py + gutter_step(py % stride, stride)) * width + (px + gutter_step(px % stride, stride))
}

/// Value of the pixel at flat index `i` after extrusion: a gutter pixel of a
/// full tile takes its inward neighbor's value, every other pixel keeps its
/// own.
pub open spec fn extruded_pixel(
    b: Seq<Pixel>,
    i: int,
    width: int,
    height: int,
    tile_interior_size: int,
) -> Pixel {
    let s = tile_stride(tile_interior_size);
    if in_full_tile(i, width, height, s) && on_gutter_ring((i % width) % s, (i / width) % s, s) {
        b[extrusion_source(i, width, s)]
    } else {
        b[i]
    }
}

/// The whole buffer after extrusion.
pub open spec fn extruded(b: Seq<Pixel>, width: int, height: int, tile_interior_size: int) -> Seq<
    Pixel,
> {
    Seq::new(b.len(), |i: int| extruded_pixel(b, i, width, height, tile_interior_size))
}

/// Flat index of the pixel at local coordinates `(lx, ly)` of the tile in
/// column `tile_col`, row `tile_row` of a grid whose cells are `stride`
/// pixels wide.
pub open spec fn tile_pixel_index(
    tile_col: int,
    tile_row: int,
    lx: int,
    ly: int,
    width: int,
    stride: int,
) -> int {
    (tile_row * stride + ly) * width + (tile_col * stride + lx)
}

/// A raster holding an in-bounds flat index has positive dimensions.
pub(crate) proof fn lemma_dims_positive(i: int, width: int, height: int)
    by (nonlinear_arith)
    requires
        0 <= i < width * height,
        0 <= width,
        0 <= height,
    ensures
        width >= 1,
        height >= 1,
{
}

/// Row and column of an in-bounds flat index of a `width`-wide raster.
pub(crate) proof fn lemma_flat_coords(i: int, width: int, height: int)
    requires
        width >= 1,
        0 <= i < width * height,
    ensures
        0 <= i % width < width,
        0 <= i / width < height,
        i == (i / width) * width + (i % width),
{
    lemma_fundamental_div_mod(i, width);
    lemma_mod_division_less_than_divisor(i, width);
    lemma_div_pos_is_pos(i, width);
    lemma_mul_is_commutative(width, i / width);
    if i / width >= height {
        lemma_mul_inequality(height, i / width, width);
        lemma_mul_is_commutative(height, width);
    }
}

/// A pair of in-bounds coordinates has an in-bounds flat index.
pub(crate) proof fn lemma_flat_index_bounds(x: int, y: int, width: int, height: int)
    requires
        0 <= x < width,
        0 <= y < height,
    ensures
        0 <= y * width + x < width * height,
{
    lemma_mul_nonnegative(y, width);
    lemma_mul_is_distributive_add(width, y, 1);
    lemma_mul_is_commutative(width, y + 1);
    lemma_mul_is_commutative(width, y);
    lemma_mul_inequality(y + 1, height, width);
    lemma_mul_is_commutative(height, width);
}

/// Stepping a coordinate of a full stride cell toward the cell's interior
/// stays inside the cell, and hence inside the raster.
proof fn lemma_step_in_cell(p: int, stride: int, limit: int)
    requires
        stride >= 2,
        0 <= p,
        0 <= limit,
        p / stride < limit / stride,
    ensures
        0 <= p % stride < stride,
        0 <= p + gutter_step(p % stride, stride),
        p + gutter_step(p % stride, stride) < limit,
        (p + gutter_step(p % stride, stride)) / stride == p / stride,
        (p + gutter_step(p % stride, stride)) % stride == (p % stride) + gutter_step(
            p % stride,
            stride,
        ),
{
    let q = p / stride;
    let r = p % stride;
    lemma_fundamental_div_mod(p, stride);
    lemma_mod_division_less_than_divisor(p, stride);
    lemma_div_pos_is_pos(p, stride);
    let d = gutter_step(r, stride);
    assert(0 <= r + d < stride);
    lemma_mul_is_commutative(stride, q);
    assert(p + d == q * stride + (r + d));
    lemma_fundamental_div_mod_converse(p + d, stride, q, r + d);
    lemma_mul_nonnegative(q, stride);
    lemma_mul_inequality(q + 1, limit / stride, stride);
    lemma_mul_is_distributive_add(stride, q, 1);
    lemma_mul_is_commutative(stride, q + 1);
    lemma_fundamental_div_mod(limit, stride);
    lemma_mod_division_less_than_divisor(limit, stride);
    lemma_mul_is_commutative(stride, limit / stride);
}

/// Local coordinates within a full tile determine the flat index's row,
/// column, and position within the stride cell.
proof fn lemma_tile_index_coords(
    tile_col: int,
    tile_row: int,
    lx: int,
    ly: int,
    width: int,
    height: int,
    stride: int,
)
    requires
        stride >= 2,
        0 <= width,
        0 <= height,
        0 <= tile_col < width / stride,
        0 <= tile_row < height / stride,
        0 <= lx < stride,
        0 <= ly < stride,
    ensures
        0 <= tile_pixel_index(tile_col, tile_row, lx, ly, width, stride) < width * height,
        tile_pixel_index(tile_col, tile_row, lx, ly, width, stride) % width == tile_col * stride
            + lx,
        tile_pixel_index(tile_col, tile_row, lx, ly, width, stride) / width == tile_row * stride
            + ly,
        (tile_col * stride + lx) % stride == lx,
        (tile_col * stride + lx) / stride == tile_col,
        (tile_row * stride + ly) % stride == ly,
        (tile_row * stride + ly) / stride == tile_row,
{
    let px = tile_col * stride + lx;
    let py = tile_row * stride + ly;
    lemma_mul_nonnegative(tile_col, stride);
    lemma_mul_nonnegative(tile_row, stride);
    assert(px < width) by {
        lemma_mul_inequality(tile_col + 1, width / stride, stride);
        lemma_mul_is_distributive_add_other_way(stride, tile_col, 1);
        lemma_fundamental_div_mod(width, stride);
        lemma_mod_division_less_than_divisor(width, stride);
        lemma_mul_is_commutative(stride, width / stride);
    }
    assert(py < height) by {
        lemma_mul_inequality(tile_row + 1, height / stride, stride);
        lemma_mul_is_distributive_add_other_way(stride, tile_row, 1);
        lemma_fundamental_div_mod(height, stride);
        lemma_mod_division_less_than_divisor(height, stride);
        lemma_mul_is_commutative(stride, height / stride);
    }
    lemma_fundamental_div_mod_converse(px, stride, tile_col, lx);
    lemma_fundamental_div_mod_converse(py, stride, tile_row, ly);
    lemma_flat_index_bounds(px, py, width, height);
    lemma_fundamental_div_mod_converse(py * width + px, width, py, px);
}

/// Law: extrusion never modifies a pixel at an interior local coordinate of
/// any tile.
pub proof fn lemma_extrusion_interior_unchanged(
    b: Seq<Pixel>,
    width: int,
    height: int,
    tile_interior_size: int,
    tile_col: int,
    tile_row: int,
    lx: int,
    ly: int,
)
    requires
        tile_interior_size >= 0,
        0 <= width,
        0 <= height,
        b.len() == width * height,
        0 <= tile_col < width / tile_stride(tile_interior_size),
        0 <= tile_row < height / tile_stride(tile_interior_size),
        1 <= lx <= tile_interior_size,
        1 <= ly <= tile_interior_size,
    ensures
        extruded(b, width, height, tile_interior_size)[tile_pixel_index(
            tile_col,
            tile_row,
            lx,
            ly,
            width,
            tile_stride(tile_interior_size),
        )] == b[tile_pixel_index(
            tile_col,
            tile_row,
            lx,
            ly,
            width,
            tile_stride(tile_interior_size),
        )],
{
    let s = tile_stride(tile_interior_size);
    lemma_tile_index_coords(tile_col, tile_row, lx, ly, width, height, s);
}

/// Law: for every tile, each corner gutter pixel takes the diagonally inward
/// pixel's value: local `(0, 0)` takes the value at `(1, 1)`, and
/// symmetrically at the other three corners (the trailing local coordinate
/// is `tile_interior_size + 1`, its inward neighbor `tile_interior_size`).
pub proof fn lemma_extrusion_corner(
    b: Seq<Pixel>,
    width: int,
    height: int,
    tile_interior_size: int,
    tile_col: int,
    tile_row: int,
)
    requires
        tile_interior_size >= 0,
        0 <= width,
        0 <= height,
        b.len() == width * height,
        0 <= tile_col < width / tile_stride(tile_interior_size),
        0 <= tile_row < height / tile_stride(tile_interior_size),
    ensures
        extruded(b, width, height, tile_interior_size)[tile_pixel_index(
            tile_col,
            tile_row,
            0,
            0,
            width,
            tile_stride(tile_interior_size),
        )] == b[tile_pixel_index(
            tile_col,
            tile_row,
            1,
            1,
            width,
            tile_stride(tile_interior_size),
        )],
        extruded(b, width, height, tile_interior_size)[tile_pixel_index(
            tile_col,
            tile_row,
            tile_interior_size + 1,
            0,
            width,
            tile_stride(tile_interior_size),
        )] == b[tile_pixel_index(
            tile_col,
            tile_row,
            tile_interior_size,
            1,
            width,
            tile_stride(tile_interior_size),
        )],
        extruded(b, width, height, tile_interior_size)[tile_pixel_index(
            tile_col,
            tile_row,
            0,
            tile_interior_size + 1,
            width,
            tile_stride(tile_interior_size),
        )] == b[tile_pixel_index(
            tile_col,
            tile_row,
            1,
            tile_interior_size,
            width,
            tile_stride(tile_interior_size),
        )],
        extruded(b, width, height, tile_interior_size)[tile_pixel_index(
            tile_col,
            tile_row,
            tile_interior_size + 1,
            tile_interior_size + 1,
            width,
            tile_stride(tile_interior_size),
        )] == b[tile_pixel_index(
            tile_col,
            tile_row,
            tile_interior_size,
            tile_interior_size,
            width,
            tile_stride(tile_interior_size),
        )],
{
    let s = tile_stride(tile_interior_size);
    lemma_tile_index_coords(tile_col, tile_row, 0, 0, width, height, s);
    lemma_tile_index_coords(tile_col, tile_row, s - 1, 0, width, height, s);
    lemma_tile_index_coords(tile_col, tile_row, 0, s - 1, width, height, s);
    lemma_tile_index_coords(tile_col, tile_row, s - 1, s - 1, width, height, s);
}

/// Law: for every tile, each non-corner gutter pixel takes the value of its
/// straight inward neighbor: local `(l, 0)` takes the value at `(l, 1)`, and
/// analogously on the bottom, left and right gutter lines.
pub proof fn lemma_extrusion_edge(
    b: Seq<Pixel>,
    width: int,
    height: int,
    tile_interior_size: int,
    tile_col: int,
    tile_row: int,
    l: int,
)
    requires
        0 <= width,
        0 <= height,
        b.len() == width * height,
        0 <= tile_col < width / tile_stride(tile_interior_size),
        0 <= tile_row < height / tile_stride(tile_interior_size),
        1 <= l <= tile_interior_size,
    ensures
        extruded(b, width, height, tile_interior_size)[tile_pixel_index(
            tile_col,
            tile_row,
            l,
            0,
            width,
            tile_stride(tile_interior_size),
        )] == b[tile_pixel_index(
            tile_col,
            tile_row,
            l,
            1,
            width,
            tile_stride(tile_interior_size),
        )],
        extruded(b, width, height, tile_interior_size)[tile_pixel_index(
            tile_col,
            tile_row,
            l,
            tile_interior_size + 1,
            width,
            tile_stride(tile_interior_size),
        )] == b[tile_pixel_index(
            tile_col,
            tile_row,
            l,
            tile_interior_size,
            width,
            tile_stride(tile_interior_size),
        )],
        extruded(b, width, height, tile_interior_size)[tile_pixel_index(
            tile_col,
            tile_row,
            0,
            l,
            width,
            tile_stride(tile_interior_size),
        )] == b[tile_pixel_index(
            tile_col,
            tile_row,
            1,
            l,
            width,
            tile_stride(tile_interior_size),
        )],
        extruded(b, width, height, tile_interior_size)[tile_pixel_index(
            tile_col,
            tile_row,
            tile_interior_size + 1,
            l,
            width,
            tile_stride(tile_interior_size),
        )] == b[tile_pixel_index(
            tile_col,
            tile_row,
            tile_interior_size,
            l,
            width,
            tile_stride(tile_interior_size),
        )],
{
    let s = tile_stride(tile_interior_size);
    lemma_tile_index_coords(tile_col, tile_row, l, 0, width, height, s);
    lemma_tile_index_coords(tile_col, tile_row, l, s - 1, width, height, s);
    lemma_tile_index_coords(tile_col, tile_row, 0, l, width, height, s);
    lemma_tile_index_coords(tile_col, tile_row, s - 1, l, width, height, s);
}

/// Law: on a buffer whose tiles have a non-empty interior, extruding twice
/// yields the same buffer as extruding once. The second pass copies from
/// interior pixels that the first pass left unchanged. A zero interior
/// (`tile_interior_size == 0`) is excluded: there every source is itself a
/// gutter pixel that the first pass rewrote.
pub proof fn lemma_extrusion_idempotent(
    b: Seq<Pixel>,
    width: int,
    height: int,
    tile_interior_size: int,
)
    requires
        tile_interior_size >= 1,
        0 <= width,
        0 <= height,
        b.len() == width * height,
    ensures
        extruded(
            extruded(b, width, height, tile_interior_size),
            width,
            height,
            tile_interior_size,
        ) == extruded(b, width, height, tile_interior_size),
{
    let s = tile_stride(tile_interior_size);
    let e = extruded(b, width, height, tile_interior_size);
    let ee = extruded(e, width, height, tile_interior_size);
    assert forall|i: int| 0 <= i < e.len() implies ee[i] == e[i] by {
        lemma_dims_positive(i, width, height);
        lemma_flat_coords(i, width, height);
        let px = i % width;
        let py = i / width;
        if in_full_tile(i, width, height, s) && on_gutter_ring(px % s, py % s, s) {
            lemma_step_in_cell(px, s, width);
            lemma_step_in_cell(py, s, height);
            let sx = px + gutter_step(px % s, s);
            let sy = py + gutter_step(py % s, s);
            lemma_flat_index_bounds(sx, sy, width, height);
            let src = sy * width + sx;
            lemma_fundamental_div_mod_converse(src, width, sy, sx);
            assert(1 <= sx % s <= tile_interior_size);
            assert(1 <= sy % s <= tile_interior_size);
            assert(!on_gutter_ring(sx % s, sy % s, s));
            assert(ee[i] == e[src]);
            assert(e[src] == b[src]);
            assert(e[i] == b[src]);
        } else {
            assert(ee[i] == e[i]);
        }
    }
    assert(ee =~= e);
}

impl PixelBuffer {
    /// Walks the grid of full tiles and overwrites every gutter-ring pixel
    /// with a copy of its inward neighbor, per the extrusion copy rule.
    /// Interior pixels and remainder pixels outside all full tiles keep
    /// their values; the dimensions are unchanged.
    pub fn extrude_tiles(&mut self, tile_interior_size: usize)
        requires
            old(self).wf(),
            tile_interior_size <= usize::MAX - 2,
        ensures
            final(self).wf(),
            final(self).width == old(self).width,
            final(self).height == old(self).height,
            final(self).data@ == extruded(
                old(self).data@,
                old(self).width as int,
                old(self).height as int,
                tile_interior_size as int,
            ),
    {
        let stride = tile_interior_size + 2;
        let width = self.width;
        let height = self.height;
        let len = self.data.len();
        let mut out: Vec<Pixel> = Vec::with_capacity(len);
        let mut i: usize = 0;
        while i < len
            invariant
                self == old(self),
                self.wf(),
                stride == tile_interior_size + 2,
                width == self.width,
                height == self.height,
                len == self.data@.len(),
                i <= len,
                out@.len() == i,
                forall|j: int|
                    0 <= j < i ==> out@[j] == extruded_pixel(
                        self.data@,
                        j,
                        width as int,
                        height as int,
                        tile_interior_size as int,
                    ),
            decreases len - i,
        {
            proof {
                lemma_dims_positive(i as int, width as int, height as int);
                lemma_flat_coords(i as int, width as int, height as int);
            }
            let px = i % width;
            let py = i / width;
            let lx = px % stride;
            let ly = py % stride;
            let in_tile = px / stride < width / stride && py / stride < height / stride;
            let on_ring = lx == 0 || lx == stride - 1 || ly == 0 || ly == stride - 1;
            if in_tile && on_ring {
                proof {
                    lemma_step_in_cell(px as int, stride as int, width as int);
                    lemma_step_in_cell(py as int, stride as int, height as int);
                }
                let sx = if lx == 0 {
                    px + 1
                } else if lx == stride - 1 {
                    px - 1
                } else {
                    px
                };
                let sy = if ly == 0 {
                    py + 1
                } else if ly == stride - 1 {
                    py - 1
                } else {
                    py
                };
                proof {
                    lemma_flat_index_bounds(sx as int, sy as int, width as int, height as int);
                }
                let src = sy * width + sx;
                let p = self.data[src];
                out.push(p);
                proof {
                    assert(src as int == extrusion_source(
                        i as int,
                        width as int,
                        stride as int,
                    ));
                }
            } else {
                let p = self.data[i];
                out.push(p);
            }
            i = i + 1;
        }
        proof {
            assert(out@ =~= extruded(
                self.data@,
                width as int,
                height as int,
                tile_interior_size as int,
            ));
        }
        self.data = out;
    }
}

} // verus!
