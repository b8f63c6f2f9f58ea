use pathtracer::camera::Camera;

fn level(channel: f64) -> i64 {
    (channel * 255.999) as i64
}

#[test]
fn usual_camera_is_400_by_225() {
    let camera = Camera::new();
    assert_eq!(camera.image_width(), 400);
    assert_eq!(camera.image_height(), 225);
    assert_eq!(camera.samples_per_pixel(), 50);
    assert_eq!(camera.max_depth(), 10);
}

#[test]
fn with_settings_matches_the_usual_camera() {
    let camera = Camera::with_settings(16, 9, 400, 50, 10).unwrap();
    assert_eq!(camera.image_width(), 400);
    assert_eq!(camera.image_height(), 225);
    assert_eq!(camera.samples_per_pixel(), 50);
    assert_eq!(camera.max_depth(), 10);
}

#[test]
fn height_is_the_width_over_the_ratio_rounded_down() {
    assert_eq!(Camera::with_settings(4, 3, 100, 1, 1).unwrap().image_height(), 75);
    assert_eq!(Camera::with_settings(2, 1, 7, 1, 1).unwrap().image_height(), 3);
    assert_eq!(Camera::with_settings(1, 1, 64, 1, 1).unwrap().image_height(), 64);
    assert_eq!(Camera::with_settings(16, 9, 401, 1, 1).unwrap().image_height(), 225);
    assert_eq!(Camera::with_settings(16, 9, 402, 1, 1).unwrap().image_height(), 226);
    assert_eq!(Camera::with_settings(1, 2, 10, 1, 1).unwrap().image_height(), 20);
}

#[test]
fn height_may_round_down_to_nothing() {
    let camera = Camera::with_settings(16, 9, 1, 1, 1).unwrap();
    assert_eq!(camera.image_width(), 1);
    assert_eq!(camera.image_height(), 0);
}

#[test]
fn depth_zero_is_a_setting_like_any_other() {
    let camera = Camera::with_settings(16, 9, 400, 50, 0).unwrap();
    assert_eq!(camera.max_depth(), 0);
}

#[test]
fn with_settings_refuses_a_ratio_of_nothing() {
    assert!(Camera::with_settings(0, 9, 400, 50, 10).is_none());
    assert!(Camera::with_settings(16, 0, 400, 50, 10).is_none());
}

#[test]
fn with_settings_refuses_no_width() {
    assert!(Camera::with_settings(16, 9, 0, 50, 10).is_none());
}

#[test]
fn with_settings_refuses_no_samples() {
    assert!(Camera::with_settings(16, 9, 400, 0, 10).is_none());
}

#[test]
fn with_settings_refuses_an_image_too_large() {
    assert!(Camera::with_settings(1, 1, usize::MAX, 1, 1).is_none());
    assert!(Camera::with_settings(1, usize::MAX, 2, 1, 1).is_none());
    assert!(Camera::with_settings(1, usize::MAX / 2, 2, 1, 1).is_none());
    assert!(Camera::with_settings(1, 1, u32::MAX as usize, 1, 1).is_none());
}

#[test]
fn pixel_to_byte_at_the_ends_of_the_range() {
    assert_eq!(Camera::pixel_to_byte(level(1.0)), 255);
    assert_eq!(Camera::pixel_to_byte(level(0.0)), 0);
    assert_eq!(level(1.0), 255);
    assert_eq!(level(0.0), 0);
}

#[test]
fn pixel_to_byte_clamps_above_the_range() {
    assert_eq!(Camera::pixel_to_byte(256), 255);
    assert_eq!(Camera::pixel_to_byte(511), 255);
    assert_eq!(Camera::pixel_to_byte(level(1.0000001)), 255);
    assert_eq!(Camera::pixel_to_byte(level(2.0)), 255);
    assert_eq!(Camera::pixel_to_byte(level(1.0e300)), 255);
    assert_eq!(Camera::pixel_to_byte(level(f64::INFINITY)), 255);
    assert_eq!(Camera::pixel_to_byte(i64::MAX), 255);
}

#[test]
fn pixel_to_byte_clamps_below_the_range() {
    assert_eq!(Camera::pixel_to_byte(-1), 0);
    assert_eq!(Camera::pixel_to_byte(level(-0.5)), 0);
    assert_eq!(Camera::pixel_to_byte(level(f64::NEG_INFINITY)), 0);
    assert_eq!(Camera::pixel_to_byte(i64::MIN), 0);
    assert_eq!(Camera::pixel_to_byte(level(f64::NAN)), 0);
}

#[test]
fn pixel_to_byte_inside_the_range() {
    assert_eq!(Camera::pixel_to_byte(level(0.5)), 127);
    assert_eq!(Camera::pixel_to_byte(level(0.25)), 63);
    assert_eq!(Camera::pixel_to_byte(level(0.999)), 255);
    assert_eq!(Camera::pixel_to_byte(level(0.996)), 254);
    for whole in 0..=255i64 {
        assert_eq!(Camera::pixel_to_byte(whole) as i64, whole);
    }
}

#[test]
fn render_wants_three_levels_for_every_pixel() {
    let camera = Camera::with_settings(2, 1, 4, 1, 1).unwrap();
    assert_eq!(camera.image_height(), 2);
    assert!(camera.render(&vec![0; 24]).is_some());
    assert!(camera.render(&vec![0; 23]).is_none());
    assert!(camera.render(&vec![0; 25]).is_none());
    assert!(camera.render(&vec![0; 8]).is_none());
    assert!(camera.render(&Vec::new()).is_none());
}

#[test]
fn render_puts_rows_from_the_top_and_pixels_from_the_left() {
    let camera = Camera::with_settings(3, 2, 3, 1, 1).unwrap();
    assert_eq!(camera.image_height(), 2);
    let levels: Vec<i64> = (0..18).map(|k| 10 * k + 1).collect();
    let picture = camera.render(&levels).unwrap();
    assert_eq!(picture.image.width(), 3);
    assert_eq!(picture.image.height(), 2);
    for y in 0..2u32 {
        for x in 0..3u32 {
            let first = (10 * 3 * (y * 3 + x) + 1) as u8;
            assert_eq!(picture.image.get_pixel(x, y).0, [first, first + 10, first + 20]);
        }
    }
    let bytes: Vec<u8> = levels.iter().map(|k| *k as u8).collect();
    assert_eq!(picture.image.as_raw(), &bytes);
}

#[test]
fn render_clamps_every_level() {
    let camera = Camera::with_settings(1, 1, 2, 1, 1).unwrap();
    let levels = vec![-7, 0, 1, 300, 255, 254, 128, i64::MAX, i64::MIN, 256, 17, 99];
    let picture = camera.render(&levels).unwrap();
    assert_eq!(picture.image.dimensions(), (2, 2));
    assert_eq!(
        picture.image.as_raw(),
        &vec![0u8, 0, 1, 255, 255, 254, 128, 255, 0, 255, 17, 99]
    );
    assert_eq!(picture.image.get_pixel(1, 0).0, [255, 255, 254]);
    assert_eq!(picture.image.get_pixel(0, 1).0, [128, 255, 0]);
}

#[test]
fn render_of_an_image_without_rows_is_empty() {
    let camera = Camera::with_settings(16, 9, 1, 1, 1).unwrap();
    let picture = camera.render(&Vec::new()).unwrap();
    assert_eq!(picture.image.dimensions(), (1, 0));
    assert!(picture.image.as_raw().is_empty());
    assert!(camera.render(&vec![0, 0, 0]).is_none());
}

#[test]
fn render_of_the_usual_image() {
    let camera = Camera::new();
    let mut levels: Vec<i64> = Vec::new();
    for j in 0..225i64 {
        for i in 0..400i64 {
            levels.push(i - 100);
            levels.push(j);
            levels.push(level(1.0));
        }
    }
    let picture = camera.render(&levels).unwrap();
    assert_eq!(picture.image.width(), 400);
    assert_eq!(picture.image.height(), 225);
    assert_eq!(picture.image.as_raw().len(), 270000);
    assert_eq!(picture.image.get_pixel(0, 0).0, [0, 0, 255]);
    assert_eq!(picture.image.get_pixel(200, 112).0, [100, 112, 255]);
    assert_eq!(picture.image.get_pixel(399, 224).0, [255, 224, 255]);
    assert_eq!(picture.image.get_pixel(355, 7).0, [255, 7, 255]);
    assert_eq!(picture.image.get_pixel(99, 224).0, [0, 224, 255]);
}
