use vstd::prelude::*;

use vstd::arithmetic::div_mod::{
    lemma_div_pos_is_pos, lemma_fundamental_div_mod, lemma_mod_division_less_than_divisor,
};
use vstd::arithmetic::mul::{
    lemma_mul_inequality, lemma_mul_is_commutative, lemma_mul_is_distributive_add,
    lemma_mul_is_distributive_add_other_way, lemma_mul_nonnegative,
};

use crate::buffer::{get_pixel_index, PixelBuffer};
use crate::extrude::{lemma_dims_positive, lemma_flat_coords, lemma_flat_index_bounds, tile_stride};
use crate::pixel::{blank_pixel, Pixel};

verus! {

/// Width of the gutter-padded buffer grown from a tile-packed buffer:
/// two extra pixels per tile column.
pub open spec fn gutter_width(width: int, tile_interior_size: int) -> int {
    width + 2 * (width / tile_interior_size)
}

/// Height of the gutter-padded buffer grown from a tile-packed buffer:
/// two extra pixels per tile row.
pub open spec fn gutter_height(height: int, tile_interior_size: int) -> int {
    height + 2 * (height / tile_interior_size)
}

/// Value of the pixel at flat index `j` of the gutter-padded buffer: a cell
/// coordinate interior to its tile takes the matching pixel of the packed
/// buffer `b` (of the given original `width`), and every gutter coordinate
/// is blank, to be filled by extrusion afterwards.
pub open spec fn resized_pixel(b: Seq<Pixel>, j: int, width: int, tile_interior_size: int) -> Pixel {
    let s = tile_stride(tile_interior_size);
    let nw = gutter_width(width, tile_interior_size);
    let px = j % nw;
    let py = j / nw;
    let lx = px % s;
    let ly = py % s;
    if 1 <= lx <= tile_interior_size && 1 <= ly <= tile_interior_size {
        b[((py / s) * tile_interior_size + (ly - 1)) * width + ((px / s) * tile_interior_size + (lx
            - 1))]
    } else {
        blank_pixel()
    }
}

/// The whole gutter-padded buffer grown from packed buffer `b`.
pub open spec fn resized(b: Seq<Pixel>, width: int, height: int, tile_interior_size: int) -> Seq<
    Pixel,
> {
    Seq::new(
        (gutter_width(width, tile_interior_size) * gutter_height(
            height,
            tile_interior_size,
        )) as nat,
        |j: int| resized_pixel(b, j, width, tile_interior_size),
    )
}

/// A length that divides evenly splits into whole strides.
proof fn lemma_exact_multiple(n: int, d: int)
    requires
        d >= 1,
        n % d == 0,
    ensures
        n == (n / d) * d,
{
    lemma_fundamental_div_mod(n, d);
    lemma_mul_is_commutative(d, n / d);
}

/// A coordinate below `cells` whole strides lies in a cell below `cells`.
proof fn lemma_cell_below(p: int, cells: int, stride: int)
    requires
        stride >= 1,
        0 <= p,
        p < cells * stride,
    ensures
        0 <= p / stride < cells,
{
    lemma_fundamental_div_mod(p, stride);
    lemma_mod_division_less_than_divisor(p, stride);
    lemma_div_pos_is_pos(p, stride);
    if p / stride >= cells {
        lemma_mul_inequality(cells, p / stride, stride);
        lemma_mul_is_commutative(stride, p / stride);
    }
}

/// An interior cell coordinate maps into the packed buffer's strides.
proof fn lemma_packed_coord(tile: int, l: int, tile_interior_size: int, cells: int)
    requires
        tile_interior_size >= 1,
        0 <= tile < cells,
        1 <= l <= tile_interior_size,
    ensures
        0 <= tile * tile_interior_size + (l - 1) < cells * tile_interior_size,
{
    lemma_mul_nonnegative(tile, tile_interior_size);
    lemma_mul_inequality(tile + 1, cells, tile_interior_size);
    lemma_mul_is_distributive_add_other_way(tile_interior_size, tile, 1);
}

impl PixelBuffer {
    /// Grows a tile-packed buffer (tiles placed edge to edge, no gutters)
    /// into a gutter-padded one: every tile's content moves to the interior
    /// of its widened cell, and the inserted gutter space is blank. Both
    /// dimensions must divide evenly into tiles; the dimension bounds keep
    /// the grown buffer addressable.
    pub fn resize_with_gutters(&mut self, tile_interior_size: usize)
        requires
            old(self).wf(),
            tile_interior_size >= 1,
            tile_interior_size <= usize::MAX - 2,
            old(self).width % tile_interior_size == 0,
            old(self).height % tile_interior_size == 0,
            gutter_width(old(self).width as int, tile_interior_size as int) <= usize::MAX,
            gutter_height(old(self).height as int, tile_interior_size as int) <= usize::MAX,
            gutter_width(old(self).width as int, tile_interior_size as int) * gutter_height(
                old(self).height as int,
                tile_interior_size as int,
            ) <= usize::MAX,
        ensures
            final(self).wf(),
            final(self).width == gutter_width(old(self).width as int, tile_interior_size as int),
            final(self).height == gutter_height(old(self).height as int, tile_interior_size as int),
            final(self).width == old(self).width + 2 * (old(self).width as int
                / tile_interior_size as int),
            final(self).data@.len() == final(self).width * final(self).height,
            final(self).data@ == resized(
                old(self).data@,
                old(self).width as int,
                old(self).height as int,
                tile_interior_size as int,
            ),
            final(self).data@.len() == old(self).data@.len() + (final(self).width * (
            old(self).height as int / tile_interior_size as int) * 2 + (old(self).height as int
                / tile_interior_size as int) * tile_interior_size * (old(self).width as int
                / tile_interior_size as int) * 2),
    {
        let ts = tile_interior_size;
        let stride = ts + 2;
        let width = self.width;
        let height = self.height;
        let len = self.data.len();
        let columns = width / ts;
        let rows = height / ts;
        let new_width = width + 2 * columns;
        let new_height = height + 2 * rows;
        let new_len = new_width * new_height;
        proof {
            lemma_exact_multiple(width as int, ts as int);
            lemma_exact_multiple(height as int, ts as int);
            lemma_mul_is_distributive_add(columns as int, ts as int, 2);
            lemma_mul_is_distributive_add(rows as int, ts as int, 2);
        }
        let mut out: Vec<Pixel> = Vec::with_capacity(new_len);
        let mut j: usize = 0;
        while j < new_len
            invariant
                self == old(self),
                self.wf(),
                ts == tile_interior_size,
                1 <= ts <= usize::MAX - 2,
                stride == ts + 2,
                width == self.width,
                height == self.height,
                len == self.data@.len(),
                len == width * height,
                columns == width as int / ts as int,
                rows == height as int / ts as int,
                width == columns * ts,
                height == rows * ts,
                new_width == gutter_width(width as int, ts as int),
                new_height == gutter_height(height as int, ts as int),
                new_width == columns * stride,
                new_height == rows * stride,
                new_len == new_width * new_height,
                j <= new_len,
                out@.len() == j,
                forall|k: int|
                    0 <= k < j ==> out@[k] == resized_pixel(
                        self.data@,
                        k,
                        width as int,
                        ts as int,
                    ),
            decreases new_len - j,
        {
            proof {
                lemma_dims_positive(j as int, new_width as int, new_height as int);
                lemma_flat_coords(j as int, new_width as int, new_height as int);
            }
            let px = j % new_width;
            let py = j / new_width;
            let lx = px % stride;
            let ly = py % stride;
            if 1 <= lx && lx <= ts && 1 <= ly && ly <= ts {
                proof {
                    lemma_cell_below(px as int, columns as int, stride as int);
                    lemma_cell_below(py as int, rows as int, stride as int);
                }
                let tc = px / stride;
                let tr = py / stride;
                proof {
                    lemma_packed_coord(tc as int, lx as int, ts as int, columns as int);
                    lemma_packed_coord(tr as int, ly as int, ts as int, rows as int);
                }
                let sx = tc * ts + (lx - 1);
                let sy = tr * ts + (ly - 1);
                proof {
                    lemma_flat_index_bounds(sx as int, sy as int, width as int, height as int);
                }
                let src = get_pixel_index(sx, sy, width);
                let p = self.data[src];
                out.push(p);
            } else {
                let p = Pixel::blank();
                out.push(p);
            }
            j = j + 1;
        }
        proof {
            assert(out@ =~= resized(self.data@, width as int, height as int, ts as int));
            assert(new_width as int * new_height as int == width as int * height as int
                + new_width as int * rows as int * 2 + rows as int * ts as int * columns as int
                * 2) by (nonlinear_arith)
                requires
                    width == columns * ts,
                    height == rows * ts,
                    stride == ts + 2,
                    new_width == columns * stride,
                    new_height == rows * stride,
            ;
        }
        self.data = out;
        self.width = new_width;
        self.height = new_height;
    }
}

} // verus!
