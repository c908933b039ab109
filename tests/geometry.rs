use clip_embed::geometry::{crop_origin, crop_to_planes, resize_dims};

#[test]
fn resize_landscape_sets_height_to_size() {
    assert_eq!(resize_dims(640, 480, 224), Some((299, 224)));
}

#[test]
fn resize_portrait_sets_width_to_size() {
    assert_eq!(resize_dims(480, 640, 224), Some((224, 299)));
}

#[test]
fn resize_square_keeps_square() {
    assert_eq!(resize_dims(500, 500, 224), Some((224, 224)));
}

#[test]
fn resize_rounds_half_up() {
    // 3 * 2 / 4 = 1.5 rounds to 2
    assert_eq!(resize_dims(3, 4, 2), Some((2, 3)));
    // 5 * 3 / 2 = 7.5 rounds to 8
    assert_eq!(resize_dims(5, 2, 3), Some((8, 3)));
    // 10 * 3 / 7 = 4.28 rounds to 4
    assert_eq!(resize_dims(10, 7, 3), Some((4, 3)));
}

#[test]
fn resize_that_overflows_is_refused() {
    assert_eq!(resize_dims(1, u32::MAX, 224), None);
}

#[test]
fn crop_origin_is_centred_with_integer_division() {
    assert_eq!(crop_origin(299, 224, 224), (37, 0));
    assert_eq!(crop_origin(224, 300, 224), (0, 38));
    assert_eq!(crop_origin(5, 4, 2), (1, 1));
    assert_eq!(crop_origin(224, 224, 224), (0, 0));
}

#[test]
fn crop_to_planes_takes_centre_channel_major() {
    // 4 x 3 image, pixel (x, y) has rgb (10y + x, 100 + 10y + x, 200 + x)
    let (w, h) = (4u32, 3u32);
    let mut px = Vec::new();
    for y in 0..h {
        for x in 0..w {
            px.push((10 * y + x) as u8);
            px.push((100 + 10 * y + x) as u8);
            px.push((200 + x) as u8);
        }
    }
    let out = crop_to_planes(&px, w, h, 2);
    // origin ((4-2)/2, (3-2)/2) = (1, 0)
    assert_eq!(out, vec![1, 2, 11, 12, 101, 102, 111, 112, 201, 202, 201, 202]);
}

#[test]
fn crop_to_planes_output_has_three_square_planes() {
    let px = vec![7u8; 9 * 6 * 3];
    let out = crop_to_planes(&px, 9, 6, 5);
    assert_eq!(out.len(), 3 * 5 * 5);
    assert!(out.iter().all(|&v| v == 7));
}
