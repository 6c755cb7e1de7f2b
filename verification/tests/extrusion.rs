use tile_extrude::buffer::PixelBuffer;
use tile_extrude::pixel::Pixel;

fn px(n: u8) -> Pixel {
    Pixel { r: n, g: n, b: n, a: 255 }
}

fn xy(x: u8, y: u8) -> Pixel {
    Pixel { r: x, g: y, b: 0, a: 255 }
}

#[test]
fn single_tile_corner_and_edge_rule() {
    // One gutter-sized 4x4 tile (interior 2x2 at (1,1)..(2,2)).
    let data: Vec<Pixel> = (0..16).map(|i| px(i as u8)).collect();
    let mut buf = PixelBuffer::new(data, 4, 4);
    buf.extrude_tiles(2);
    // Interior pixels 5, 6, 9, 10 are untouched; each gutter pixel takes
    // its nearest interior neighbor, corners diagonally.
    let expected: Vec<Pixel> = [
        5, 5, 6, 6, //
        5, 5, 6, 6, //
        9, 9, 10, 10, //
        9, 9, 10, 10,
    ]
    .iter()
    .map(|&n| px(n as u8))
    .collect();
    assert_eq!(buf.data, expected);
    assert_eq!(buf.width, 4);
    assert_eq!(buf.height, 4);
}

#[test]
fn interior_pixels_unchanged() {
    // Two 3x3 tiles (interior size 1) side by side.
    let data: Vec<Pixel> = (0..18).map(|i| px(i as u8)).collect();
    let mut buf = PixelBuffer::new(data, 6, 3);
    buf.extrude_tiles(1);
    // The interior pixel of each tile keeps its value.
    assert_eq!(buf.data[1 * 6 + 1], px(7));
    assert_eq!(buf.data[1 * 6 + 4], px(10));
}

#[test]
fn four_by_four_scenario() {
    // A 4x4 tile-packed image with tile interior 2: resize to 8x8, then
    // extrude. Pixel (0, 0) ends up equal to the original pixel that became
    // the local-interior (1, 1) of tile (0, 0).
    let data: Vec<Pixel> = (0..16).map(|i| px(i as u8)).collect();
    let mut buf = PixelBuffer::new(data, 4, 4);
    buf.resize_with_gutters(2);
    assert_eq!(buf.width, 4 + 2 * 2);
    assert_eq!(buf.height, 8);
    buf.extrude_tiles(2);

    let at = |x: usize, y: usize| buf.data[y * 8 + x];
    // Corners of the four tiles duplicate diagonally.
    assert_eq!(at(0, 0), px(0));
    assert_eq!(at(3, 0), px(1));
    assert_eq!(at(4, 0), px(2));
    assert_eq!(at(7, 0), px(3));
    assert_eq!(at(0, 7), px(12));
    assert_eq!(at(7, 7), px(15));
    // Top and left gutter lines duplicate the adjacent interior line.
    assert_eq!(at(1, 0), px(0));
    assert_eq!(at(2, 0), px(1));
    assert_eq!(at(0, 1), px(0));
    assert_eq!(at(0, 2), px(4));
    // The shared gutter columns between the tiles copy from each side.
    assert_eq!(at(3, 1), px(1));
    assert_eq!(at(4, 1), px(2));
    // Interior pixels keep their values.
    assert_eq!(at(1, 1), px(0));
    assert_eq!(at(6, 6), px(15));
}

#[test]
fn zero_tiles_is_a_no_op() {
    // A single 16x16 image treated as already gutter-sized with interior
    // 16: the stride 18 exceeds both dimensions, so there are no tiles and
    // nothing changes.
    let data: Vec<Pixel> = (0..256).map(|i| px((i % 251) as u8)).collect();
    let before = data.clone();
    let mut buf = PixelBuffer::new(data, 16, 16);
    buf.extrude_tiles(16);
    assert_eq!(buf.data, before);
}

#[test]
fn remainder_pixels_untouched() {
    // Width 50 with stride 18 gives 2 tile columns; the 14 remainder
    // columns on the right lie outside every tile and keep their values.
    let data: Vec<Pixel> = (0..50 * 18).map(|i| xy((i % 50) as u8, (i / 50) as u8)).collect();
    let before = data.clone();
    let mut buf = PixelBuffer::new(data, 50, 18);
    buf.extrude_tiles(16);
    for y in 0..18 {
        for x in 36..50 {
            assert_eq!(buf.data[y * 50 + x], before[y * 50 + x]);
        }
    }
    // Inside the tiles the gutter was rewritten as usual.
    assert_eq!(buf.data[0], xy(1, 1));
    assert_eq!(buf.data[17], xy(16, 1));
    assert_eq!(buf.data[5 * 50 + 18], xy(19, 5));
}

#[test]
fn extruding_twice_equals_once() {
    // On a gutter-sized grid with a non-empty interior a second pass reads
    // the same interior pixels the first one did.
    let data: Vec<Pixel> = (0..36).map(|i| px((i * 5 % 251) as u8)).collect();
    let mut buf = PixelBuffer::new(data, 6, 6);
    buf.extrude_tiles(1);
    let once = buf.data.clone();
    buf.extrude_tiles(1);
    assert_eq!(buf.data, once);
}

#[test]
fn zero_interior_swaps_diagonally() {
    // Interior size 0 (stride 2) has no interior pixels: every pixel of the
    // 2x2 tile is a corner and copies from its diagonal opposite.
    let data = vec![px(1), px(2), px(3), px(4)];
    let mut buf = PixelBuffer::new(data, 2, 2);
    buf.extrude_tiles(0);
    assert_eq!(buf.data, vec![px(4), px(3), px(2), px(1)]);
}

#[test]
fn resize_and_extrude_scales_tiles() {
    // A 2x2 image with interior size 1: each pixel becomes its own 3x3
    // cell, filled entirely with that pixel's color by extrusion.
    let data = vec![px(1), px(2), px(3), px(4)];
    let mut buf = PixelBuffer::new(data, 2, 2);
    buf.resize_and_extrude(1);
    assert_eq!(buf.width, 6);
    assert_eq!(buf.height, 6);
    let expected: Vec<Pixel> = [
        1, 1, 1, 2, 2, 2, //
        1, 1, 1, 2, 2, 2, //
        1, 1, 1, 2, 2, 2, //
        3, 3, 3, 4, 4, 4, //
        3, 3, 3, 4, 4, 4, //
        3, 3, 3, 4, 4, 4,
    ]
    .iter()
    .map(|&n| px(n as u8))
    .collect();
    assert_eq!(buf.data, expected);
}
