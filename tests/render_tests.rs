use retro_cube::canvas::{background_color, PixelBuffer};
use retro_cube::color::Color;
use retro_cube::shading::{checker_parity, FlatMaterial, UnlitLightning};

#[test]
fn new_buffer_is_zeroed() {
    let buf = PixelBuffer::new(3, 2);
    assert_eq!(buf.get_width(), 3);
    assert_eq!(buf.get_height(), 2);
    assert_eq!(buf.as_bytes().len(), 24);
    assert!(buf.as_bytes().iter().all(|b| *b == 0));
}

#[test]
fn write_pixel_stores_bgra() {
    let mut buf = PixelBuffer::new(2, 2);
    buf.write_pixel(1, 1, Color::new_with_alpha(10, 20, 30, 40));
    let bytes = buf.as_bytes();
    assert_eq!(&bytes[12..16], &[30, 20, 10, 40]);
    assert!(bytes[..12].iter().all(|b| *b == 0));
}

#[test]
fn resize_reallocates_zeroed() {
    let mut buf = PixelBuffer::new(2, 2);
    buf.write_pixel(0, 0, Color::new(1, 2, 3));
    buf.resize(3, 1);
    assert_eq!(buf.get_width(), 3);
    assert_eq!(buf.get_height(), 1);
    assert_eq!(buf.as_bytes(), &[0u8; 12][..]);
}

#[test]
fn background_is_opaque_black() {
    assert_eq!(background_color(), Color::new(0, 0, 0));
}

#[test]
fn render_frame_fills_every_pixel() {
    let mut buf = PixelBuffer::new(3, 2);
    buf.render_frame(|x, y| {
        if x == 1 {
            None
        } else {
            Some(Color::new_with_alpha(x as u8, y as u8, 7, 200))
        }
    });
    let bytes = buf.as_bytes();
    for y in 0..2usize {
        for x in 0..3usize {
            let o = (x + y * 3) * 4;
            let expected = if x == 1 {
                [0, 0, 0, 255]
            } else {
                [7, y as u8, x as u8, 200]
            };
            assert_eq!(&bytes[o..o + 4], &expected);
        }
    }
}

#[test]
fn render_frame_asks_row_by_row_from_top() {
    let mut buf = PixelBuffer::new(2, 2);
    let calls = std::cell::RefCell::new(Vec::new());
    buf.render_frame(|x, y| {
        calls.borrow_mut().push((x, y));
        Some(Color::new(0, 0, 0))
    });
    assert_eq!(calls.into_inner(), vec![(0, 0), (1, 0), (0, 1), (1, 1)]);
}

#[test]
fn flat_material_ignores_hit() {
    let m = FlatMaterial { color: Color::new(5, 6, 7) };
    assert_eq!(m.compute_surface_color(), Color::new(5, 6, 7));
}

#[test]
fn checker_parity_alternates() {
    assert_eq!(checker_parity(0, 0), 0);
    assert_eq!(checker_parity(1, 0), 1);
    assert_eq!(checker_parity(0, 1), 1);
    assert_eq!(checker_parity(1, 1), 0);
    assert_eq!(checker_parity(u32::MAX, u32::MAX), 0);
    assert_eq!(checker_parity(u32::MAX, 2), 1);
}

#[test]
fn unlit_lightning_tints_by_ambient() {
    let mut l = UnlitLightning::new(&Color::new(128, 255, 0));
    assert_eq!(*l.get_ambient_color(), Color::new(128, 255, 0));
    assert_eq!(l.apply_light(Color::new(200, 100, 50)), Color::new(100, 100, 0));
    l.set_ambient_color(&Color::new(255, 255, 255));
    assert_eq!(*l.get_ambient_color(), Color::new(255, 255, 255));
    assert_eq!(l.apply_light(Color::new(200, 100, 50)), Color::new(200, 100, 50));
}
