use std::cmp::Ordering;

use succotash::error::InvalidInput;
use succotash::hue::{Hue, FULL_TURN, UNITS_PER_DEGREE};
use succotash::order::Comparison;
use succotash::raster::RasterImage;

fn uniform(width: u32, height: u32, color: [u8; 3]) -> RasterImage {
    let mut pixels = Vec::new();
    for _ in 0..(width * height) {
        pixels.extend_from_slice(&color);
    }
    RasterImage { width, height, pixels }
}

fn degrees(hue: &Hue) -> f64 {
    hue.microdegrees() as f64 / UNITS_PER_DEGREE as f64
}

#[test]
fn primary_colors_are_a_third_of_a_turn_apart() {
    let red = Hue::find(&uniform(4, 3, [255, 0, 0])).unwrap();
    let green = Hue::find(&uniform(4, 3, [0, 255, 0])).unwrap();
    let blue = Hue::find(&uniform(4, 3, [0, 0, 255])).unwrap();
    assert_eq!(red.microdegrees(), 0);
    assert_eq!(green.microdegrees(), 120_000_000);
    assert_eq!(blue.microdegrees(), 240_000_000);
    assert!((degrees(&red) - 0.0).abs() < 1e-9);
    assert!((degrees(&green) - 120.0).abs() < 1e-9);
    assert!((degrees(&blue) - 240.0).abs() < 1e-9);
}

#[test]
fn secondary_colors_lie_between_the_primaries() {
    assert_eq!(Hue::from_channel_sums(255, 255, 0).microdegrees(), 60_000_000);
    assert_eq!(Hue::from_channel_sums(0, 255, 255).microdegrees(), 180_000_000);
    assert_eq!(Hue::from_channel_sums(255, 0, 255).microdegrees(), 300_000_000);
}

#[test]
fn a_color_without_chroma_has_hue_zero() {
    assert_eq!(Hue::from_channel_sums(0, 0, 0).microdegrees(), 0);
    assert_eq!(Hue::from_channel_sums(10, 10, 10).microdegrees(), 0);
    assert_eq!(Hue::find(&uniform(2, 2, [128, 128, 128])).unwrap().microdegrees(), 0);
}

#[test]
fn the_hue_is_rounded_down_to_a_millionth_of_a_degree() {
    // 60 * 128 / 255 = 30.117647058...
    assert_eq!(Hue::from_channel_sums(255, 128, 0).microdegrees(), 30_117_647);
    // 120 + 60 * (64 - 255) / 255 = 75.058823529...
    assert_eq!(Hue::from_channel_sums(255, 255 + 0, 64).microdegrees(), 60_000_000);
    assert_eq!(Hue::from_channel_sums(191, 255, 0).microdegrees(), 75_058_823);
    // 240 + 60 * (100 - 30) / 200 = 261
    assert_eq!(Hue::from_channel_sums(100, 30, 230).microdegrees(), 261_000_000);
}

#[test]
fn a_color_just_below_red_wraps_to_the_end_of_the_turn() {
    // 60 * (0 - 1) / 255 = -0.235294117..., which is 359.764705882...
    let hue = Hue::from_channel_sums(255, 0, 1);
    assert_eq!(hue.microdegrees(), 359_764_705);
    assert!(hue.microdegrees() < FULL_TURN);
    let just_above = Hue::from_channel_sums(255, 1, 0);
    assert_eq!(just_above.microdegrees(), 235_294);
    assert!(just_above < hue);
}

#[test]
fn angles_are_wrapped_into_one_turn() {
    assert_eq!(Hue::new(0).microdegrees(), 0);
    assert_eq!(Hue::new(359_999_999).microdegrees(), 359_999_999);
    assert_eq!(Hue::new(360_000_000).microdegrees(), 0);
    assert_eq!(Hue::new(360_000_001).microdegrees(), 1);
    assert_eq!(Hue::new(725_000_000).microdegrees(), 5_000_000);
    assert_eq!(Hue::new(-1).microdegrees(), 359_999_999);
    assert_eq!(Hue::new(-60_000_000).microdegrees(), 300_000_000);
    assert_eq!(Hue::new(-360_000_000).microdegrees(), 0);
    assert_eq!(Hue::new(-360_000_001).microdegrees(), 359_999_999);
    assert_eq!(Hue::new(-725_000_000).microdegrees(), 355_000_000);
}

#[test]
fn extreme_angles_are_wrapped_too() {
    // i64::MAX = 9223372036854775807 = 25620477880 * 360000000 + 54775807
    assert_eq!(Hue::new(i64::MAX).microdegrees(), 54_775_807);
    // i64::MIN = -(i64::MAX + 1)
    assert_eq!(Hue::new(i64::MIN).microdegrees(), 360_000_000 - 54_775_808);
    for raw in [i64::MIN, -1_000_000_007, -1, 0, 1, 999_999_999_999, i64::MAX] {
        let hue = Hue::new(raw);
        assert!(hue.microdegrees() < FULL_TURN);
        assert_eq!(hue.microdegrees() as i64, raw.rem_euclid(360_000_000));
    }
}

#[test]
fn the_hue_of_an_image_is_the_hue_of_its_mean_color() {
    // one red and one green pixel: the mean (127.5, 127.5, 0) is yellow at 60
    // degrees, and so is the mean of the two hues, 0 and 120
    let raster = RasterImage { width: 2, height: 1, pixels: vec![255, 0, 0, 0, 255, 0] };
    assert_eq!(Hue::find(&raster).unwrap().microdegrees(), 60_000_000);
    // one red and one blue pixel: the mean is magenta at 300 degrees, while
    // the mean of the two hues, 0 and 240, would be 120
    let raster = RasterImage { width: 1, height: 2, pixels: vec![255, 0, 0, 0, 0, 255] };
    assert_eq!(Hue::find(&raster).unwrap().microdegrees(), 300_000_000);
}

#[test]
fn every_pixel_counts_once_in_each_channel() {
    // totals: red 10 + 200 + 30 = 240, green 20 + 100 + 60 = 180, blue 30 + 0 + 90 = 120
    let raster = RasterImage {
        width: 3,
        height: 1,
        pixels: vec![10, 20, 30, 200, 100, 0, 30, 60, 90],
    };
    // 60 * (180 - 120) / (240 - 120) = 30
    assert_eq!(Hue::find(&raster).unwrap().microdegrees(), 30_000_000);
    assert_eq!(Hue::find(&raster).unwrap(), Hue::from_channel_sums(240, 180, 120));
}

#[test]
fn the_hue_does_not_depend_on_the_size_of_a_uniform_image() {
    let small = Hue::find(&uniform(1, 1, [200, 120, 40])).unwrap();
    let large = Hue::find(&uniform(31, 17, [200, 120, 40])).unwrap();
    assert_eq!(small, large);
    // 60 * (120 - 40) / 160 = 30
    assert_eq!(small.microdegrees(), 30_000_000);
}

#[test]
fn scaling_the_channels_keeps_the_hue() {
    let base = Hue::from_channel_sums(7, 3, 5);
    for k in [2u128, 3, 1000, 1 << 40, 1 << 69] {
        assert_eq!(Hue::from_channel_sums(7 * k, 3 * k, 5 * k), base);
    }
}

#[test]
fn the_largest_channel_totals_are_taken() {
    let most: u128 = 0xff_0000_0000_0000_0000;
    assert_eq!(Hue::from_channel_sums(most, 0, 0).microdegrees(), 0);
    assert_eq!(Hue::from_channel_sums(0, most, 0).microdegrees(), 120_000_000);
    assert_eq!(Hue::from_channel_sums(0, 0, most).microdegrees(), 240_000_000);
    assert_eq!(Hue::from_channel_sums(most, 0, most).microdegrees(), 300_000_000);
    assert_eq!(Hue::from_channel_sums(most, most, most).microdegrees(), 0);
}

#[test]
fn hues_are_totally_ordered() {
    let low = Hue::new(5_000_000);
    let high = Hue::new(10_000_000);
    assert!(low < high);
    assert!(high > low);
    assert!(low <= low);
    assert_eq!(low.compare(&high), Comparison::Less);
    assert_eq!(high.compare(&low), Comparison::Greater);
    assert_eq!(low.compare(&low), Comparison::Equal);
    assert_eq!(low.partial_cmp(&high), Some(Ordering::Less));
    assert_eq!(high.partial_cmp(&low), Some(Ordering::Greater));
    assert_eq!(low.partial_cmp(&low), Some(Ordering::Equal));
    assert_eq!(Hue::new(365_000_000), low);
}

#[test]
fn a_raster_without_pixels_has_no_hue() {
    let empty = RasterImage { width: 0, height: 0, pixels: Vec::new() };
    assert_eq!(Hue::find(&empty), Err(InvalidInput));
    let no_rows = RasterImage { width: 3, height: 0, pixels: Vec::new() };
    assert_eq!(Hue::find(&no_rows), Err(InvalidInput));
    let mismatched = RasterImage { width: 1, height: 1, pixels: vec![1, 2] };
    assert_eq!(Hue::find(&mismatched), Err(InvalidInput));
}

#[test]
fn finding_the_hue_twice_gives_the_same_hue() {
    let raster = RasterImage {
        width: 2,
        height: 2,
        pixels: vec![9, 200, 33, 47, 0, 255, 100, 100, 1, 77, 66, 55],
    };
    let first = Hue::find(&raster).unwrap();
    let second = Hue::find(&raster.clone()).unwrap();
    assert_eq!(first, second);
    assert_eq!(first.microdegrees(), second.microdegrees());
}
