use merge_images_engine::types::{clamp_sensitivity, direction_from_name};
use merge_images_engine::{BackgroundColor, Direction, MergeOptions, default_overlap_sensitivity};

#[test]
fn test_direction_default() {
    assert_eq!(Direction::default(), Direction::Vertical);
}

#[test]
fn test_background_default() {
    let bg = BackgroundColor::default();
    assert_eq!(bg.r, 255);
    assert_eq!(bg.g, 255);
    assert_eq!(bg.b, 255);
    assert_eq!(bg.a, 255);
}

#[test]
fn test_background_presets() {
    let black = BackgroundColor::black();
    assert_eq!(black.r, 0);
    assert_eq!(black.a, 255);
    let transparent = BackgroundColor::transparent();
    assert_eq!(transparent.a, 0);
}

#[test]
fn test_options_default() {
    let opts = MergeOptions::default();
    assert_eq!(opts.direction, Direction::Vertical);
    assert_eq!(opts.overlap_sensitivity, default_overlap_sensitivity());
}

#[test]
fn background_constructors() {
    assert_eq!(BackgroundColor::new(1, 2, 3, 4), BackgroundColor { r: 1, g: 2, b: 3, a: 4 });
    assert_eq!(BackgroundColor::white(), BackgroundColor { r: 255, g: 255, b: 255, a: 255 });
    assert_eq!(default_overlap_sensitivity(), 35);
}

#[test]
fn direction_names() {
    assert_eq!(direction_from_name("horizontal"), Direction::Horizontal);
    assert_eq!(direction_from_name("smart"), Direction::Smart);
    assert_eq!(direction_from_name("vertical"), Direction::Vertical);
    assert_eq!(direction_from_name("diagonal"), Direction::Vertical);
    assert_eq!(direction_from_name(""), Direction::Vertical);
}

#[test]
fn sensitivity_is_clamped() {
    assert_eq!(clamp_sensitivity(-5), 0);
    assert_eq!(clamp_sensitivity(42), 42);
    assert_eq!(clamp_sensitivity(100), 100);
    assert_eq!(clamp_sensitivity(250), 100);
}
