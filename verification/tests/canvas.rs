use psbfont::canvas::{fits_in_memory, Canvas, Rgba8};

fn white(a: u8) -> Rgba8 {
    Rgba8 { r: 255, g: 255, b: 255, a }
}

#[test]
fn new_canvas_is_transparent_and_has_its_size() {
    let c = Canvas::new(2, 3).unwrap();
    assert_eq!(c.width(), 2);
    assert_eq!(c.height(), 3);
    assert_eq!(c.bytes().len(), 24);
    assert!(c.bytes().iter().all(|b| *b == 0));
    assert!(!c.has_visible_pixel());
}

#[test]
fn new_canvas_may_be_empty() {
    let c = Canvas::new(0, 5).unwrap();
    assert_eq!(c.width(), 0);
    assert_eq!(c.height(), 5);
    assert_eq!(c.bytes().len(), 0);
}

#[test]
fn new_canvas_refuses_what_cannot_be_allocated() {
    assert!(Canvas::new(u32::MAX, u32::MAX).is_none());
}

#[test]
fn set_pixel_writes_four_bytes_in_row_major_order() {
    let mut c = Canvas::new(2, 3).unwrap();
    assert!(c.set_pixel(1, 2, Rgba8 { r: 10, g: 20, b: 30, a: 40 }));
    let mut expected = vec![0u8; 24];
    expected[20] = 10;
    expected[21] = 20;
    expected[22] = 30;
    expected[23] = 40;
    assert_eq!(c.bytes(), &expected);
    assert_eq!(c.width(), 2);
    assert_eq!(c.height(), 3);
}

#[test]
fn set_pixel_outside_changes_nothing() {
    let mut c = Canvas::new(2, 3).unwrap();
    assert!(!c.set_pixel(2, 0, white(255)));
    assert!(!c.set_pixel(0, 3, white(255)));
    assert!(c.bytes().iter().all(|b| *b == 0));
}

#[test]
fn visibility_goes_by_alpha_alone() {
    let mut c = Canvas::new(3, 1).unwrap();
    c.set_pixel(0, 0, Rgba8 { r: 255, g: 255, b: 255, a: 0 });
    assert!(!c.has_visible_pixel());
    c.set_pixel(2, 0, Rgba8 { r: 0, g: 0, b: 0, a: 1 });
    assert!(c.has_visible_pixel());
}

#[test]
fn overlay_copies_opaque_pixels_at_the_offset() {
    let mut bottom = Canvas::new(4, 4).unwrap();
    let mut top = Canvas::new(2, 2).unwrap();
    top.set_pixel(1, 0, white(255));
    bottom.overlay(&top, 2, 1);
    assert_eq!(bottom.width(), 4);
    assert_eq!(bottom.height(), 4);
    let mut expected = vec![0u8; 64];
    let k = 4 * (1 * 4 + 3);
    expected[k] = 255;
    expected[k + 1] = 255;
    expected[k + 2] = 255;
    expected[k + 3] = 255;
    assert_eq!(bottom.bytes(), &expected);
}

#[test]
fn overlay_drops_what_falls_outside() {
    let mut bottom = Canvas::new(2, 2).unwrap();
    let mut top = Canvas::new(2, 2).unwrap();
    top.set_pixel(0, 0, white(255));
    top.set_pixel(1, 1, white(255));
    bottom.overlay(&top, 1, 1);
    let mut expected = vec![0u8; 16];
    for k in 12..16 {
        expected[k] = 255;
    }
    assert_eq!(bottom.bytes(), &expected);
    let mut far = Canvas::new(2, 2).unwrap();
    far.overlay(&top, 5, 5);
    assert!(far.bytes().iter().all(|b| *b == 0));
}

#[test]
fn crop_keeps_the_upper_left_corner() {
    let mut c = Canvas::new(3, 3).unwrap();
    c.set_pixel(0, 0, white(1));
    c.set_pixel(1, 1, white(2));
    c.set_pixel(2, 2, white(3));
    let out = c.crop(2, 2);
    assert_eq!(out.width(), 2);
    assert_eq!(out.height(), 2);
    assert_eq!(
        out.bytes(),
        &vec![255, 255, 255, 1, 0, 0, 0, 0, 0, 0, 0, 0, 255, 255, 255, 2]
    );
}

#[test]
fn crop_never_grows_the_buffer() {
    let c = Canvas::new(3, 2).unwrap();
    let out = c.crop(64, 1);
    assert_eq!(out.width(), 3);
    assert_eq!(out.height(), 1);
    assert_eq!(out.bytes().len(), 12);
}

#[test]
fn a_buffer_fits_while_its_bytes_fit_an_allocation() {
    assert!(fits_in_memory(0, 0));
    assert!(fits_in_memory(2048, 2048));
    assert!(fits_in_memory(u32::MAX, 0));
    assert!(!fits_in_memory(u32::MAX, u32::MAX));
    let side: u128 = 1 << 30;
    assert_eq!(fits_in_memory(side as u32, side as u32), 4 * side * side <= isize::MAX as u128);
}
