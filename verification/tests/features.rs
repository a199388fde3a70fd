use std::cmp::Ordering;

use succotash::error::InvalidInput;
use succotash::features::ImgFeatures;
use succotash::hue::Hue;
use succotash::img::{Img, ImgRaw};
use succotash::lshash::LsHash;
use succotash::order::Comparison;
use succotash::raster::RasterImage;

fn features(bits: u64, degrees: i64) -> ImgFeatures {
    ImgFeatures { lshash: LsHash::new(bits), hue: Hue::new(degrees * 1_000_000) }
}

fn raw(path: &str, width: u32, height: u32, pixels: Vec<u8>) -> ImgRaw {
    ImgRaw { path: path.to_string(), data: RasterImage { width, height, pixels } }
}

#[test]
fn unordered_hashes_make_unordered_features() {
    let a = features(0b0111, 10);
    let b = features(0b1110, 5);
    assert_eq!(a.compare(&b), Comparison::Incomparable);
    assert_eq!(b.compare(&a), Comparison::Incomparable);
    assert_eq!(a.partial_cmp(&b), None);
    assert!(!(a < b));
    assert!(!(a > b));
    assert!(a != b);

    let c = features(0b1110, 15);
    assert_eq!(a.compare(&c), Comparison::Incomparable);
    let d = features(0b1110, 10);
    assert_eq!(a.compare(&d), Comparison::Incomparable);
}

#[test]
fn the_hash_has_priority_over_the_hue() {
    let two = features(0b0011, 300);
    let three = features(0b0111, 1);
    assert_eq!(two.compare(&three), Comparison::Less);
    assert_eq!(three.compare(&two), Comparison::Greater);
    assert!(two < three);
    assert!(three > two);

    let two = features(0x8000_0000_0000_0001, 0);
    let three = features(0b1011, 359);
    assert!(two < three);
    let three = features(0b1011, 0);
    assert!(two < three);
}

#[test]
fn the_hue_orders_features_with_the_same_hash() {
    let a = features(0b0111, 5);
    let b = features(0b0111, 10);
    assert_eq!(a.compare(&b), Comparison::Less);
    assert_eq!(b.compare(&a), Comparison::Greater);
    assert_eq!(a.partial_cmp(&b), Some(Ordering::Less));
    assert!(a < b);
    assert!(a != b);
}

#[test]
fn features_are_equal_when_hash_and_hue_are() {
    let a = features(0b0111, 5);
    let b = features(0b0111, 5);
    assert_eq!(a.compare(&b), Comparison::Equal);
    assert_eq!(a.partial_cmp(&b), Some(Ordering::Equal));
    assert!(a == b);
    assert!(a != features(0b0111, 6));
    assert!(a != features(0b1011, 5));
}

#[test]
fn comparisons_convert_to_optional_orderings() {
    assert_eq!(Comparison::Less.to_ordering(), Some(Ordering::Less));
    assert_eq!(Comparison::Equal.to_ordering(), Some(Ordering::Equal));
    assert_eq!(Comparison::Greater.to_ordering(), Some(Ordering::Greater));
    assert_eq!(Comparison::Incomparable.to_ordering(), None);
    assert!(Comparison::Less.is_comparable());
    assert!(Comparison::Equal.is_comparable());
    assert!(Comparison::Greater.is_comparable());
    assert!(!Comparison::Incomparable.is_comparable());
}

#[test]
fn features_hold_the_hash_and_the_hue_of_the_same_pixels() {
    let mut pixels = Vec::new();
    for y in 0..8 {
        for _ in 0..8 {
            pixels.extend_from_slice(if y < 4 { &[0u8, 0, 0] } else { &[0u8, 255, 0] });
        }
    }
    let original = raw("/home/user/pic.png", 8, 8, pixels);
    let found = ImgFeatures::find(&original).unwrap();
    assert_eq!(found.lshash, LsHash::find(&original.data).unwrap());
    assert_eq!(found.hue, Hue::find(&original.data).unwrap());
    assert_eq!(found.lshash.bits(), 0xFFFF_FFFF_0000_0000u64);
    assert_eq!(found.hue.microdegrees(), 120_000_000);
}

#[test]
fn a_black_image_has_every_bit_set_and_hue_zero() {
    let original = raw("/home/user/pic.png", 32, 32, vec![0u8; 32 * 32 * 3]);
    let found = ImgFeatures::find(&original).unwrap();
    assert_eq!(found.lshash.bits(), u64::MAX);
    assert_eq!(found.hue.microdegrees(), 0);
}

#[test]
fn an_image_keeps_its_path() {
    let original = raw("/home/user/Pictures/wallpaper.png", 1, 1, vec![0, 0, 255]);
    let img = Img::from(original).unwrap();
    assert_eq!(img.path, "/home/user/Pictures/wallpaper.png");
    assert_eq!(img.features.lshash.bits(), u64::MAX);
    assert_eq!(img.features.hue.microdegrees(), 240_000_000);
}

#[test]
fn an_image_without_pixels_has_no_features() {
    let original = raw("empty.png", 0, 0, Vec::new());
    assert_eq!(ImgFeatures::find(&original), Err(InvalidInput));
    assert!(Img::from(original).is_err());
    let original = raw("short.png", 2, 2, vec![0u8; 9]);
    assert_eq!(ImgFeatures::find(&original), Err(InvalidInput));
}

#[test]
fn finding_features_twice_gives_the_same_features() {
    let mut pixels = Vec::new();
    for i in 0..(19u32 * 13) {
        pixels.extend_from_slice(&[(i * 7) as u8, (i * 31) as u8, (i * i) as u8]);
    }
    let original = raw("a.png", 19, 13, pixels.clone());
    let again = raw("b.png", 19, 13, pixels);
    let first = ImgFeatures::find(&original).unwrap();
    let second = ImgFeatures::find(&again).unwrap();
    assert!(first == second);
    assert_eq!(first.lshash.bits(), second.lshash.bits());
    assert_eq!(first.hue.microdegrees(), second.hue.microdegrees());
    assert_eq!(first.compare(&second), Comparison::Equal);
}
