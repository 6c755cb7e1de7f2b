use tile_extrude::buffer::{get_pixel_index, insert_pixels, PixelBuffer};
use tile_extrude::pixel::Pixel;

fn px(n: u8) -> Pixel {
    Pixel { r: n, g: n, b: n, a: 255 }
}

#[test]
fn blank_is_transparent_black() {
    assert_eq!(Pixel::blank(), Pixel { r: 0, g: 0, b: 0, a: 0 });
}

#[test]
fn pixel_index_row_major() {
    assert_eq!(get_pixel_index(0, 0, 10), 0);
    assert_eq!(get_pixel_index(3, 0, 10), 3);
    assert_eq!(get_pixel_index(0, 1, 10), 10);
    assert_eq!(get_pixel_index(3, 2, 10), 23);
    assert_eq!(get_pixel_index(9, 9, 10), 99);
}

#[test]
fn buffer_new_keeps_fields() {
    let data = vec![px(1), px(2), px(3), px(4), px(5), px(6)];
    let buf = PixelBuffer::new(data.clone(), 3, 2);
    assert_eq!(buf.width, 3);
    assert_eq!(buf.height, 2);
    assert_eq!(buf.data, data);
}

#[test]
fn insert_in_middle() {
    let mut buf = vec![px(1), px(2), px(3)];
    let count = insert_pixels(&mut buf, 1, vec![px(8), px(9)]);
    assert_eq!(count, 2);
    assert_eq!(buf, vec![px(1), px(8), px(9), px(2), px(3)]);
}

#[test]
fn insert_at_front() {
    let mut buf = vec![px(1), px(2)];
    let count = insert_pixels(&mut buf, 0, vec![px(7)]);
    assert_eq!(count, 1);
    assert_eq!(buf, vec![px(7), px(1), px(2)]);
}

#[test]
fn insert_at_length_appends() {
    let mut buf = vec![px(1), px(2), px(3)];
    let count = insert_pixels(&mut buf, 3, vec![px(8), px(9)]);
    assert_eq!(count, 2);
    assert_eq!(buf, vec![px(1), px(2), px(3), px(8), px(9)]);
}

#[test]
fn insert_beyond_length_appends() {
    let mut buf = vec![px(1)];
    let count = insert_pixels(&mut buf, 10, vec![px(8)]);
    assert_eq!(count, 1);
    assert_eq!(buf, vec![px(1), px(8)]);
}

#[test]
fn insert_nothing() {
    let mut buf = vec![px(1), px(2)];
    let count = insert_pixels(&mut buf, 1, vec![]);
    assert_eq!(count, 0);
    assert_eq!(buf, vec![px(1), px(2)]);
}
