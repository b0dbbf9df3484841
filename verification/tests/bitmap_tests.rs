//! The coverage bitmap: fresh bitmaps are zero-filled at the requested
//! dimensions, and single-pixel writes land where they should.

use piston_truetype::bitmap::Bitmap;

#[test]
fn new_bitmap_is_all_zero() {
    // A fresh bitmap has the requested dimensions and only zero bytes, as
    // rasterizing an empty outline must yield.
    let b = Bitmap::new(12, 7).unwrap();
    assert_eq!(b.w, 12);
    assert_eq!(b.h, 7);
    assert_eq!(b.stride, 12);
    assert_eq!(b.pixels.len(), 12 * 7);
    assert!(b.pixels.iter().all(|&p| p == 0));
}

#[test]
fn zero_sized_bitmaps() {
    let b = Bitmap::new(0, 5).unwrap();
    assert_eq!(b.pixels.len(), 0);
    let b = Bitmap::new(5, 0).unwrap();
    assert_eq!(b.pixels.len(), 0);
}

#[test]
fn set_and_get_pixels() {
    let mut b = Bitmap::new(4, 3).unwrap();
    b.set(2, 1, 200);
    b.set(0, 0, 17);
    assert_eq!(b.get(2, 1), 200);
    assert_eq!(b.get(0, 0), 17);
    assert_eq!(b.get(1, 1), 0);
    assert_eq!(b.pixels[1 * 4 + 2], 200);
}
