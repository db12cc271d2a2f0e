use pixelcannon::texture::{pack_argb, BitmapTexture};

#[test]
fn new_texture_is_zeroed() {
    let t = BitmapTexture::new(3, 2);
    assert_eq!(t.width, 3);
    assert_eq!(t.height, 2);
    assert_eq!(t.data.len(), 24);
    assert!(t.data.iter().all(|b| *b == 0));
}

#[test]
fn set_then_get_pixel() {
    let mut t = BitmapTexture::new(4, 3);
    t.set_pixel(2, 1, 10, 20, 30, 40);
    assert_eq!(t.get_pixel(2, 1), (10, 20, 30, 40));
    assert_eq!(t.get_pixel(1, 2), (0, 0, 0, 0));
    assert_eq!(&t.data[24..28], &[10, 20, 30, 40]);
}

#[test]
fn argb_packing() {
    assert_eq!(pack_argb(0xFF, 0x22, 0x0C, 0xE8), 0xFF220CE8);
    let mut t = BitmapTexture::new(2, 2);
    t.set_pixel(1, 1, 0x12, 0x34, 0x56, 0x78);
    assert_eq!(t.get_argb(1, 1), 0x12345678);
}

#[test]
fn sampling_clamps_to_the_border() {
    let mut t = BitmapTexture::new(2, 2);
    t.set_pixel(0, 0, 1, 0, 0, 0);
    t.set_pixel(1, 0, 2, 0, 0, 0);
    t.set_pixel(0, 1, 3, 0, 0, 0);
    t.set_pixel(1, 1, 4, 0, 0, 0);
    assert_eq!(t.sample(-5, -5), 0x0100_0000);
    assert_eq!(t.sample(7, -1), 0x0200_0000);
    assert_eq!(t.sample(-1, 9), 0x0300_0000);
    assert_eq!(t.sample(2, 2), 0x0400_0000);
    assert_eq!(t.sample(1, 0), 0x0200_0000);
}

#[test]
fn texture_from_rgb_words_is_opaque() {
    let pixels: Vec<u32> = vec![0x00112233, 0xAA445566, 0x00778899, 0x00000001, 0x00FFFFFF, 0x00000000];
    let t = BitmapTexture::from_argb_pixels(3, 2, &pixels);
    assert_eq!(t.get_pixel(0, 0), (255, 0x11, 0x22, 0x33));
    assert_eq!(t.get_pixel(1, 0), (255, 0x44, 0x55, 0x66));
    assert_eq!(t.get_pixel(2, 0), (255, 0x77, 0x88, 0x99));
    assert_eq!(t.get_pixel(0, 1), (255, 0, 0, 1));
    assert_eq!(t.get_argb(1, 1), 0xFFFFFFFF);
    assert_eq!(t.get_argb(2, 1), 0xFF000000);
}

#[test]
fn empty_texture_has_no_bytes() {
    let t = BitmapTexture::new(0, 5);
    assert_eq!(t.data.len(), 0);
}
