use clip_embed::image_prep::{load_image, ImageLoadError};

fn png_bytes(width: u32, height: u32, rgb: [u8; 3]) -> Vec<u8> {
    let img = image::RgbImage::from_pixel(width, height, image::Rgb(rgb));
    let mut out = std::io::Cursor::new(Vec::new());
    img.write_to(&mut out, image::ImageFormat::Png).unwrap();
    out.into_inner()
}

#[test]
fn empty_bytes_are_undecodable() {
    let r = load_image(&[], 224);
    assert!(matches!(r, Err(ImageLoadError::Undecodable(_))));
}

#[test]
fn malformed_bytes_are_undecodable() {
    let r = load_image(b"this is not an image at all", 224);
    assert!(matches!(r, Err(ImageLoadError::Undecodable(_))));
}

#[test]
fn landscape_image_becomes_square_planes() {
    let bytes = png_bytes(64, 32, [200, 100, 50]);
    let p = load_image(&bytes, 16).ok().unwrap();
    assert_eq!(p.size, 16);
    assert_eq!(p.data.len(), 3 * 16 * 16);
    assert!(p.data[..256].iter().all(|&v| v == 200));
    assert!(p.data[256..512].iter().all(|&v| v == 100));
    assert!(p.data[512..].iter().all(|&v| v == 50));
}

#[test]
fn portrait_and_tiny_images_have_the_same_shape() {
    for (w, h) in [(3u32, 50u32), (1, 1), (224, 224), (500, 7)] {
        let bytes = png_bytes(w, h, [1, 2, 3]);
        let p = load_image(&bytes, 24).ok().unwrap();
        assert_eq!(p.data.len(), 3 * 24 * 24);
    }
}

#[test]
fn resize_changes_the_pixel_grid() {
    // A left half black, right half white image, 8 x 4, to side 4: the
    // resized image is 8 x 4 and its centre square straddles the edge.
    let mut img = image::RgbImage::new(8, 4);
    for (x, _, p) in img.enumerate_pixels_mut() {
        *p = if x < 4 { image::Rgb([0, 0, 0]) } else { image::Rgb([255, 255, 255]) };
    }
    let mut out = std::io::Cursor::new(Vec::new());
    img.write_to(&mut out, image::ImageFormat::Png).unwrap();
    let p = load_image(&out.into_inner(), 2).ok().unwrap();
    // resized to 4 x 2, crop origin (1, 0): a dark column then a light one
    assert_eq!(p.data.len(), 12);
    assert!(p.data[0] < 128);
    assert!(p.data[1] > 128);
}

#[test]
fn other_formats_are_read_from_content() {
    let img = image::RgbImage::from_pixel(6, 4, image::Rgb([9, 8, 7]));
    let mut out = std::io::Cursor::new(Vec::new());
    img.write_to(&mut out, image::ImageFormat::Tiff).unwrap();
    let p = load_image(&out.into_inner(), 4).ok().unwrap();
    assert_eq!(p.data.len(), 3 * 4 * 4);
    assert!(p.data[..16].iter().all(|&v| v == 9));
}
