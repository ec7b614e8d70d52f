use shotly::pixels::RgbaPixels;

fn gradient(w: u32, h: u32) -> RgbaPixels {
    let mut data = Vec::new();
    for y in 0..h {
        for x in 0..w {
            data.extend_from_slice(&[x as u8, y as u8, (x * 10 + y) as u8, 255]);
        }
    }
    RgbaPixels::from_raw(w, h, data).unwrap()
}

#[test]
fn from_raw_checks_length() {
    assert!(RgbaPixels::from_raw(2, 2, vec![0; 16]).is_some());
    assert!(RgbaPixels::from_raw(2, 2, vec![0; 20]).is_some());
    assert!(RgbaPixels::from_raw(2, 2, vec![0; 15]).is_none());
    assert!(RgbaPixels::from_raw(0, 0, vec![]).is_some());
}

#[test]
fn crop_copies_pixels() {
    let img = gradient(4, 3);
    let c = img.crop(1, 1, 2, 2);
    assert_eq!((c.width, c.height), (2, 2));
    assert_eq!(&c.data[0..4], &[1, 1, 11, 255]);
    assert_eq!(&c.data[12..16], &[2, 2, 22, 255]);
}

#[test]
fn crop_clamps_to_image() {
    let img = gradient(4, 3);
    let c = img.crop(3, 2, 10, 10);
    assert_eq!((c.width, c.height), (1, 1));
    assert_eq!(c.data, vec![3, 2, 32, 255]);
    let c = img.crop(9, 9, 2, 2);
    assert_eq!((c.width, c.height), (0, 0));
    assert!(c.data.is_empty());
}

#[test]
fn pick_color_reads_pixel() {
    let img = gradient(4, 3);
    assert_eq!(img.pick_color(2, 1), "#020115");
    assert_eq!(img.pick_color(3, 2), "#030220");
    assert_eq!(img.pick_color(4, 0), "#000000");
    assert_eq!(img.pick_color(0, 3), "#000000");
}
