use yumo_core::sprites::{image_data_uri, image_mime, sprite_sample_points};

#[test]
fn sprite_mime_by_extension() {
    assert_eq!(image_mime("gif"), "image/gif");
    assert_eq!(image_mime("jpg"), "image/jpeg");
    assert_eq!(image_mime("jpeg"), "image/jpeg");
    assert_eq!(image_mime("png"), "image/png");
    assert_eq!(image_mime("webp"), "image/png");
    assert_eq!(image_mime(""), "image/png");
}

#[test]
fn sprite_image_as_data_uri() {
    assert_eq!(image_data_uri("image/png", b"Man"), "data:image/png;base64,TWFu");
    assert_eq!(image_data_uri("image/gif", b"Ma"), "data:image/gif;base64,TWE=");
    assert_eq!(image_data_uri("image/png", b""), "data:image/png;base64,");
}

#[test]
fn sprite_corners_inset_fourteen_on_large_sheets() {
    assert_eq!(sprite_sample_points(200, 100), vec![(14, 14), (185, 14), (14, 85), (185, 85)]);
}

#[test]
fn sprite_corners_inset_quarter_on_small_sheets() {
    // shorter side 40: a quarter is 10
    assert_eq!(sprite_sample_points(40, 300), vec![(10, 10), (29, 10), (10, 289), (29, 289)]);
    // a single pixel is sampled four times
    assert_eq!(sprite_sample_points(1, 1), vec![(0, 0), (0, 0), (0, 0), (0, 0)]);
}
