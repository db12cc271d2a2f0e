use pixelcannon::framebuffer::Framebuffer;
use pixelcannon::texture::BitmapTexture;

#[test]
fn new_and_clear_fill_every_pixel() {
    let mut f = Framebuffer::new(4, 3, 7);
    assert_eq!(f.get_width(), 4);
    assert_eq!(f.get_height(), 3);
    assert!(f.pixels.iter().all(|p| *p == 7));
    f.clear(0xFF220CE8);
    assert!(f.pixels.iter().all(|p| *p == 0xFF220CE8));
    assert_eq!(f.pixel(3, 2), 0xFF220CE8);
}

#[test]
fn set_pixel_outside_changes_nothing() {
    let mut f = Framebuffer::new(3, 3, 0);
    f.set_pixel(-1, 0, 5);
    f.set_pixel(3, 1, 5);
    f.set_pixel(1, 3, 5);
    assert!(f.pixels.iter().all(|p| *p == 0));
    f.set_pixel(2, 1, 5);
    assert_eq!(f.pixel(2, 1), 5);
    assert_eq!(f.pixels.iter().filter(|p| **p == 5).count(), 1);
}

fn striped_texture() -> BitmapTexture {
    let pixels: Vec<u32> = vec![0x000001, 0x000002, 0x000003, 0x000004];
    BitmapTexture::from_argb_pixels(4, 1, &pixels)
}

#[test]
fn span_is_contiguous_and_sampled() {
    let texture = striped_texture();
    let mut f = Framebuffer::new(10, 3, 0);
    let coords: Vec<(i32, i32)> = vec![(0, 0), (1, 0), (2, 0), (3, 0), (9, 4)];
    f.draw_span(&texture, 1, 3, &coords);
    for x in 0..10 {
        let expected = match x {
            3 => 0xFF000001,
            4 => 0xFF000002,
            5 => 0xFF000003,
            6 | 7 => 0xFF000004,
            _ => 0,
        };
        assert_eq!(f.pixel(x, 1), expected, "x = {}", x);
        assert_eq!(f.pixel(x, 0), 0);
        assert_eq!(f.pixel(x, 2), 0);
    }
}

#[test]
fn span_is_clipped_to_the_surface() {
    let texture = striped_texture();
    let mut f = Framebuffer::new(4, 2, 0);
    let coords: Vec<(i32, i32)> = vec![(0, 0); 8];
    f.draw_span(&texture, 0, -2, &coords);
    assert!((0..4).all(|x| f.pixel(x, 0) == 0xFF000001));
    assert!((0..4).all(|x| f.pixel(x, 1) == 0));
    f.draw_span(&texture, 5, 0, &coords);
    assert!((0..4).all(|x| f.pixel(x, 1) == 0));
}

#[test]
fn empty_span_writes_nothing() {
    let texture = striped_texture();
    let mut f = Framebuffer::new(4, 2, 9);
    let coords: Vec<(i32, i32)> = Vec::new();
    f.draw_span(&texture, 0, 1, &coords);
    assert!(f.pixels.iter().all(|p| *p == 9));
}
