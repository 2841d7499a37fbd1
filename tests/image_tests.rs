use retro_cube::color::{Color, PixelData};
use retro_cube::image::Image;

#[test]
fn new_image_is_zeroed() {
    let img = Image::new(3, 2);
    assert_eq!(img.get_width(), 3);
    assert_eq!(img.get_height(), 2);
    for y in 0..2 {
        for x in 0..3 {
            assert_eq!(img.read_pixel(x, y), 0);
            assert_eq!(img.read_color(x, y), Color::new_with_alpha(0, 0, 0, 0));
        }
    }
}

#[test]
fn write_and_read_pixels() {
    let mut img = Image::new(4, 3);
    img.write_pixel(2, 1, 0x11223344);
    img.write_color(3, 2, Color::new(9, 8, 7));
    assert_eq!(img.read_pixel(2, 1), 0x11223344);
    assert_eq!(img.read_color(2, 1), Color::new_with_alpha(0x11, 0x22, 0x33, 0x44));
    assert_eq!(img.read_pixel(3, 2), PixelData::from(Color::new(9, 8, 7)));
    assert_eq!(img.read_color(3, 2), Color::new(9, 8, 7));
    assert_eq!(img.read_pixel(1, 2), 0);
    assert_eq!(img.read_pixel(2, 0), 0);
}

#[test]
fn iter_walks_rows_top_first() {
    let mut img = Image::new(2, 2);
    img.write_pixel(0, 0, 1);
    img.write_pixel(1, 0, 2);
    img.write_pixel(0, 1, 3);
    img.write_pixel(1, 1, 4);
    let mut it = img.iter();
    assert_eq!(it.next(), Some((0, 0, Color::from(1))));
    assert_eq!(it.next(), Some((1, 0, Color::from(2))));
    assert_eq!(it.next(), Some((0, 1, Color::from(3))));
    assert_eq!(it.next(), Some((1, 1, Color::from(4))));
    assert_eq!(it.next(), None);
    assert_eq!(it.next(), None);
}

#[test]
fn iter_over_empty_image() {
    let img = Image::new(0, 5);
    assert_eq!(img.iter().next(), None);
    let img = Image::new(5, 0);
    assert_eq!(img.iter().next(), None);
}
