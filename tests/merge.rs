use image::{DynamicImage, GrayImage, Rgba, RgbaImage};
use imageproc::template_matching::{MatchTemplateMethod, match_template};
use merge_images_engine::chrome::enforce_min_content;
use merge_images_engine::overlap::{overlap_search, trimmed_gray, width_ratio_ok};
use merge_images_engine::{
    BackgroundColor, ChromeTrim, Direction, MergeError, MergeOptions, PreparedMerge, RgbaGrid, accept_match,
    blend_with_background, compose_merge, compute_chrome_trims, pair_overlap_search, prepare_merge,
};

fn to_millionths(v: f32) -> i64 {
    if v.is_finite() { (f64::from(v) * 1_000_000.0).round() as i64 } else { i64::MIN }
}

fn gray_image(g: &merge_images_engine::GrayGrid) -> GrayImage {
    GrayImage::from_raw(g.width, g.height, g.pixels.clone()).unwrap()
}

fn search_overlap(search: &merge_images_engine::OverlapSearch, sensitivity: u8) -> Option<u32> {
    let region = gray_image(&search.region);
    for t in &search.templates {
        let result = match_template(&region, &gray_image(t), MatchTemplateMethod::CrossCorrelationNormalized);
        let scores: Vec<i64> = result.pixels().map(|p| to_millionths(p[0])).collect();
        if let Some(o) =
            accept_match(&scores, result.width(), t.width, t.height, search.top_height, search.bottom_height, sensitivity)
        {
            return Some(o);
        }
    }
    None
}

fn overlaps_of(p: &PreparedMerge, sensitivity: u8) -> Vec<u32> {
    (0..p.images.len().saturating_sub(1))
        .map(|i| pair_overlap_search(p, i, sensitivity).and_then(|s| search_overlap(&s, sensitivity)).unwrap_or(0))
        .collect()
}

fn merge(images: Vec<Vec<u8>>, options: MergeOptions) -> Result<Vec<u8>, MergeError> {
    let p = prepare_merge(&images, &options)?;
    let overlaps =
        if options.direction == Direction::Smart { overlaps_of(&p, options.overlap_sensitivity) } else { vec![] };
    compose_merge(&p, &overlaps, &options.background)
}

fn detect_overlap(top: &RgbaGrid, bottom: &RgbaGrid, sensitivity: u8) -> Option<u32> {
    let none = ChromeTrim::default();
    let search = overlap_search(&trimmed_gray(top, none), &trimmed_gray(bottom, none), sensitivity)?;
    search_overlap(&search, sensitivity)
}

fn encode(img: RgbaImage) -> Vec<u8> {
    let mut bytes = Vec::new();
    let encoder = image::codecs::png::PngEncoder::new(&mut bytes);
    DynamicImage::ImageRgba8(img).write_with_encoder(encoder).unwrap();
    bytes
}

fn create_test_png(width: u32, height: u32, color: Rgba<u8>) -> Vec<u8> {
    encode(RgbaImage::from_pixel(width, height, color))
}

fn create_smart_fixture_png(width: u32, chrome_h: u32, content_h: u32, global_start: u32) -> Vec<u8> {
    let full_h = chrome_h + content_h + chrome_h;
    let mut img = RgbaImage::from_pixel(width, full_h, Rgba([20, 20, 20, 255]));
    for y in 0..content_h {
        let gy = global_start + y;
        for x in 0..width {
            let mut z = (x as u64).wrapping_mul(0x9E3779B97F4A7C15) ^ (gy as u64).wrapping_mul(0xBF58476D1CE4E5B9);
            z ^= z >> 30;
            z = z.wrapping_mul(0xBF58476D1CE4E5B9);
            z ^= z >> 27;
            z = z.wrapping_mul(0x94D049BB133111EB);
            z ^= z >> 31;
            let mut g = (z >> 56) as u8;
            if (210..218).contains(&gy) && x < 80 {
                g = (x as u8).wrapping_mul(3) ^ 0xA5;
            }
            img.put_pixel(x, chrome_h + y, Rgba([g, g, g, 255]));
        }
    }
    encode(img)
}

fn decoded_size(bytes: &[u8]) -> (u32, u32) {
    let img = image::load_from_memory(bytes).unwrap();
    (img.width(), img.height())
}

fn solid_grid(width: u32, height: u32, color: [u8; 4]) -> RgbaGrid {
    let mut pixels = Vec::new();
    for _ in 0..width * height {
        pixels.extend_from_slice(&color);
    }
    RgbaGrid { width, height, pixels }
}

fn build_bar_image(width: u32, height: u32, top: u32, bottom: u32, seed: u32) -> RgbaGrid {
    let mut pixels = Vec::new();
    for y in 0..height {
        for x in 0..width {
            if y < top || y >= height.saturating_sub(bottom) {
                pixels.extend_from_slice(&[20, 20, 20, 255]);
            } else {
                let v = x.wrapping_mul(37) ^ y.wrapping_mul(131) ^ seed.wrapping_mul(7919);
                let g = (v % 251) as u8;
                pixels.extend_from_slice(&[g, g, g, 255]);
            }
        }
    }
    RgbaGrid { width, height, pixels }
}

#[test]
fn test_merge_no_images() {
    let result = merge(vec![], MergeOptions::default());
    assert!(matches!(result, Err(MergeError::NoImages)));
}

#[test]
fn test_merge_single_image() {
    let img_data = create_test_png(100, 200, Rgba([255, 0, 0, 255]));
    let result = merge(vec![img_data], MergeOptions::default());
    assert!(result.is_ok());
    assert_eq!(decoded_size(&result.unwrap()), (100, 200));
}

#[test]
fn test_merge_vertical() {
    let img1 = create_test_png(100, 50, Rgba([255, 0, 0, 255]));
    let img2 = create_test_png(100, 50, Rgba([0, 255, 0, 255]));
    let options = MergeOptions { direction: Direction::Vertical, ..Default::default() };
    let result = merge(vec![img1, img2], options);
    assert!(result.is_ok());
    assert_eq!(decoded_size(&result.unwrap()), (100, 100));
}

#[test]
fn test_merge_smart_chrome_strip_and_overlap() {
    let width = 220;
    let chrome_h = 20;
    let content_h = 300;
    let overlap = 100;
    let img1 = create_smart_fixture_png(width, chrome_h, content_h, 0);
    let img2 = create_smart_fixture_png(width, chrome_h, content_h, content_h - overlap);
    let options = MergeOptions { direction: Direction::Smart, ..Default::default() };
    let result = merge(vec![img1, img2], options);
    assert!(result.is_ok());
    let (w, h) = decoded_size(&result.unwrap());
    assert_eq!(w, width);
    assert_eq!(h, 540);
}

#[test]
fn test_merge_horizontal() {
    let img1 = create_test_png(50, 100, Rgba([255, 0, 0, 255]));
    let img2 = create_test_png(50, 100, Rgba([0, 255, 0, 255]));
    let options = MergeOptions { direction: Direction::Horizontal, ..Default::default() };
    let result = merge(vec![img1, img2], options);
    assert!(result.is_ok());
    assert_eq!(decoded_size(&result.unwrap()), (100, 100));
}

#[test]
fn test_merge_vertical_different_widths() {
    let img1 = create_test_png(100, 50, Rgba([255, 0, 0, 255]));
    let img2 = create_test_png(200, 50, Rgba([0, 255, 0, 255]));
    let options = MergeOptions { direction: Direction::Vertical, ..Default::default() };
    let result = merge(vec![img1, img2], options);
    assert!(result.is_ok());
    assert_eq!(decoded_size(&result.unwrap()), (200, 150));
}

#[test]
fn test_merge_decode_error() {
    let valid_img = create_test_png(100, 100, Rgba([255, 0, 0, 255]));
    let invalid_img = vec![0u8, 1, 2, 3];
    let result = merge(vec![valid_img, invalid_img], MergeOptions::default());
    assert!(matches!(result, Err(MergeError::DecodeError { index: 1, .. })));
}

#[test]
fn red_and_blue_stack_vertically() {
    let red = create_test_png(10, 10, Rgba([255, 0, 0, 255]));
    let blue = create_test_png(10, 10, Rgba([0, 0, 255, 255]));
    let options = MergeOptions { direction: Direction::Vertical, ..Default::default() };
    let out = merge(vec![red, blue], options).unwrap();
    let img = image::load_from_memory(&out).unwrap().to_rgba8();
    assert_eq!((img.width(), img.height()), (10, 20));
    assert_eq!(img.get_pixel(5, 2).0, [255, 0, 0, 255]);
    assert_eq!(img.get_pixel(5, 15).0, [0, 0, 255, 255]);
}

#[test]
fn single_image_with_default_options() {
    let one = create_test_png(10, 10, Rgba([1, 2, 3, 255]));
    let out = merge(vec![one], MergeOptions::default()).unwrap();
    assert_eq!(decoded_size(&out), (10, 10));
}

#[test]
fn single_image_horizontal_keeps_size() {
    let one = create_test_png(30, 12, Rgba([1, 2, 3, 255]));
    let options = MergeOptions { direction: Direction::Horizontal, ..Default::default() };
    let out = merge(vec![one], options).unwrap();
    assert_eq!(decoded_size(&out), (30, 12));
}

#[test]
fn png_header_declares_planned_size() {
    let a = create_test_png(40, 10, Rgba([9, 9, 9, 255]));
    let b = create_test_png(20, 10, Rgba([9, 9, 9, 255]));
    let out = merge(vec![a, b], MergeOptions::default()).unwrap();
    assert_eq!(&out[0..8], &[137, 80, 78, 71, 13, 10, 26, 10]);
    assert_eq!(u32::from_be_bytes([out[16], out[17], out[18], out[19]]), 40);
    assert_eq!(u32::from_be_bytes([out[20], out[21], out[22], out[23]]), 30);
}

#[test]
fn narrower_images_are_centered_on_background() {
    let options = MergeOptions { direction: Direction::Horizontal, background: BackgroundColor::black(), ..Default::default() };
    let tall = create_test_png(10, 20, Rgba([255, 255, 255, 255]));
    let out = merge(vec![tall.clone(), tall], options).unwrap();
    let img = image::load_from_memory(&out).unwrap().to_rgba8();
    assert_eq!((img.width(), img.height()), (20, 20));
    assert_eq!(img.get_pixel(15, 10).0, [255, 255, 255, 255]);
}

#[test]
fn transparent_pixels_take_the_background() {
    let clear = create_test_png(4, 4, Rgba([10, 20, 30, 0]));
    let options = MergeOptions { background: BackgroundColor::new(1, 2, 3, 4), ..Default::default() };
    let out = merge(vec![clear], options).unwrap();
    let img = image::load_from_memory(&out).unwrap().to_rgba8();
    assert_eq!(img.get_pixel(1, 1).0, [1, 2, 3, 4]);
}

#[test]
fn prepared_merge_plans_scaled_sizes() {
    let a = create_test_png(100, 50, Rgba([1, 1, 1, 255]));
    let b = create_test_png(200, 50, Rgba([1, 1, 1, 255]));
    let p = prepare_merge(&vec![a, b], &MergeOptions::default()).unwrap();
    assert_eq!(p.sizes, vec![(100, 50), (200, 50)]);
    assert_eq!(p.scaled, vec![(200, 100), (200, 50)]);
    assert_eq!((p.width, p.height), (200, 150));
    assert_eq!((p.images[0].width, p.images[0].height), (200, 100));
    assert!(p.trims.is_empty());
}

#[test]
fn smart_height_drops_trims_and_overlaps() {
    let a = create_test_png(100, 200, Rgba([1, 1, 1, 255]));
    let b = create_test_png(100, 200, Rgba([1, 1, 1, 255]));
    let options = MergeOptions { direction: Direction::Smart, ..Default::default() };
    let p = prepare_merge(&vec![a, b], &options).unwrap();
    assert_eq!(p.trims.len(), 2);
    assert_eq!(p.trims[0].top, 0);
    assert_eq!(p.trims[1].bottom, 0);
    let removed = p.trims[0].bottom + p.trims[1].top;
    let out = compose_merge(&p, &vec![7], &options.background).unwrap();
    assert_eq!(decoded_size(&out), (100, 400 - removed - 7));
}

#[test]
fn test_blend_with_background_opaque() {
    let pixel = [100, 150, 200, 255];
    let bg = BackgroundColor::white();
    assert_eq!(blend_with_background(pixel, &bg), pixel);
}

#[test]
fn test_blend_with_background_transparent() {
    let pixel = [100, 150, 200, 0];
    let bg = BackgroundColor::white();
    assert_eq!(blend_with_background(pixel, &bg), [255, 255, 255, 255]);
}

#[test]
fn test_blend_with_background_transparent_bg() {
    let pixel = [100, 150, 200, 0];
    let bg = BackgroundColor::transparent();
    assert_eq!(blend_with_background(pixel, &bg), [0, 0, 0, 0]);
}

#[test]
fn test_blend_with_background_semi_transparent() {
    let pixel = [0, 0, 0, 128];
    let bg = BackgroundColor::white();
    let blended = blend_with_background(pixel, &bg);
    assert!(blended[0] > 100 && blended[0] < 150);
    assert_eq!(blended[3], 255);
}

#[test]
fn test_blend_with_background_semi_transparent_bg() {
    let pixel = [255, 0, 0, 128];
    let bg = BackgroundColor { r: 0, g: 0, b: 255, a: 128 };
    let blended = blend_with_background(pixel, &bg);
    assert!(blended[0] > 60 && blended[0] < 140);
    assert!(blended[2] > 60 && blended[2] < 140);
    assert_eq!(blended[3], 128);
}

#[test]
fn blend_exact_values() {
    // 255 * 127 / 255 = 127 exactly
    assert_eq!(blend_with_background([0, 0, 0, 128], &BackgroundColor::white()), [127, 127, 127, 255]);
    // (200 * 51 + 100 * 204) / 255 = 120
    assert_eq!(blend_with_background([200, 200, 200, 51], &BackgroundColor::new(100, 100, 100, 9)), [120, 120, 120, 9]);
}

#[test]
fn test_compute_chrome_trims_detects_top_and_bottom() {
    let a = build_bar_image(200, 340, 20, 20, 1);
    let b = build_bar_image(200, 340, 20, 20, 2);
    let trims = compute_chrome_trims(&[a, b]);
    assert_eq!(trims.len(), 2);
    assert_eq!(trims[0].top, 0);
    assert_eq!(trims[1].bottom, 0);
    assert!(trims[0].bottom.abs_diff(20) <= 2, "bottom={}", trims[0].bottom);
    assert!(trims[1].top.abs_diff(20) <= 2, "top={}", trims[1].top);
}

#[test]
fn chrome_trims_keep_outer_edges_of_three_images() {
    let imgs = [build_bar_image(200, 340, 20, 20, 1), build_bar_image(200, 340, 20, 20, 2), build_bar_image(200, 340, 20, 20, 3)];
    let trims = compute_chrome_trims(&imgs);
    assert_eq!(trims.len(), 3);
    assert_eq!(trims[0].top, 0);
    assert_eq!(trims[2].bottom, 0);
    assert!(trims[1].top > 0 && trims[1].bottom > 0);
    assert!(compute_chrome_trims(&[]).is_empty());
}

#[test]
fn identical_flat_images_are_not_trimmed_to_nothing() {
    let a = solid_grid(100, 60, [50, 50, 50, 255]);
    let trims = compute_chrome_trims(&[a.clone(), a]);
    // Every row matches, but the trims are capped to a fifth of the height
    // and then dropped for leaving fewer than 50 rows.
    assert_eq!(trims, vec![ChromeTrim::default(), ChromeTrim::default()]);
}

#[test]
fn min_content_collapses_trims() {
    assert_eq!(enforce_min_content(ChromeTrim { top: 30, bottom: 30 }, 100), ChromeTrim { top: 0, bottom: 0 });
    assert_eq!(enforce_min_content(ChromeTrim { top: 20, bottom: 30 }, 100), ChromeTrim { top: 20, bottom: 30 });
    assert_eq!(enforce_min_content(ChromeTrim { top: 1, bottom: 0 }, 40), ChromeTrim { top: 0, bottom: 0 });
    assert_eq!(enforce_min_content(ChromeTrim { top: 5, bottom: 5 }, 0), ChromeTrim { top: 0, bottom: 0 });
}

#[test]
fn test_no_overlap_different_images() {
    let img1 = solid_grid(200, 400, [255, 0, 0, 255]);
    let img2 = solid_grid(200, 400, [0, 255, 0, 255]);
    let result = detect_overlap(&img1, &img2, 35);
    assert!(result.is_none() || result.unwrap() > 0);
}

#[test]
fn test_images_too_small() {
    let img1 = solid_grid(40, 40, [128, 128, 128, 255]);
    let img2 = solid_grid(40, 40, [128, 128, 128, 255]);
    let result = detect_overlap(&img1, &img2, 35);
    assert!(result.is_none() || result.unwrap() <= 40);
}

#[test]
fn test_different_widths_rejected() {
    let img1 = solid_grid(200, 400, [128, 128, 128, 255]);
    let img2 = solid_grid(100, 400, [128, 128, 128, 255]);
    assert!(detect_overlap(&img1, &img2, 35).is_none());
}

#[test]
fn width_ratio_gate() {
    assert!(width_ratio_ok(100, 90));
    assert!(width_ratio_ok(90, 100));
    assert!(!width_ratio_ok(100, 89));
    let none = ChromeTrim::default();
    let a = trimmed_gray(&build_bar_image(200, 300, 0, 0, 1), none);
    let b = trimmed_gray(&build_bar_image(170, 300, 0, 0, 1), none);
    assert!(overlap_search(&a, &b, 35).is_none());
}

#[test]
fn overlap_search_lists_templates_from_the_lower_image() {
    let none = ChromeTrim::default();
    let a = trimmed_gray(&build_bar_image(200, 300, 0, 0, 1), none);
    let b = trimmed_gray(&build_bar_image(200, 300, 0, 0, 2), none);
    let s = overlap_search(&a, &b, 35).unwrap();
    // margin 5 on each side of 200 columns
    assert_eq!((s.region.width, s.region.height), (190, 300));
    assert!(!s.templates.is_empty());
    assert_eq!(s.templates[0].height, 80);
    assert_eq!(s.templates[0].pixels[0], b.pixels[5]);
}

#[test]
fn accept_match_gates() {
    // 3 columns by 20 rows, best at row 10, others far lower; an 8x8
    // template excludes 2 columns and 2 rows around the best.
    let mut scores = vec![100_000i64; 60];
    scores[31] = 900_000;
    assert_eq!(accept_match(&scores, 3, 8, 8, 100, 200, 35), Some(90));
    // Below the threshold (0.825 at sensitivity 35).
    scores[31] = 820_000;
    assert_eq!(accept_match(&scores, 3, 8, 8, 100, 200, 35), None);
    // A competitor outside the exclusion zone within the gap (0.0295).
    scores[31] = 900_000;
    scores[59] = 890_000;
    assert_eq!(accept_match(&scores, 3, 8, 8, 100, 200, 35), None);
    // Beaten by the gap it does not matter.
    scores[59] = 870_000;
    assert_eq!(accept_match(&scores, 3, 8, 8, 100, 200, 35), Some(90));
    // Inside the exclusion zone (row 11) a close score does not count.
    scores[59] = 100_000;
    scores[34] = 899_999;
    assert_eq!(accept_match(&scores, 3, 8, 8, 100, 200, 35), Some(90));
    // The overlap must fit the lower image and be at least 5 rows.
    assert_eq!(accept_match(&scores, 3, 8, 8, 100, 50, 35), None);
    assert_eq!(accept_match(&scores, 3, 8, 8, 12, 200, 35), None);
    // Non-finite scores never win.
    let all_nan = vec![i64::MIN; 6];
    assert_eq!(accept_match(&all_nan, 3, 8, 8, 100, 200, 35), None);
}

#[test]
fn test_compute_overlaps_single_image() {
    let img = create_test_png(200, 400, Rgba([128, 128, 128, 255]));
    let options = MergeOptions { direction: Direction::Smart, ..Default::default() };
    let p = prepare_merge(&vec![img], &options).unwrap();
    assert!(overlaps_of(&p, 35).is_empty());
}

#[test]
fn overlaps_out_of_range_count_as_zero() {
    let a = create_test_png(100, 200, Rgba([1, 1, 1, 255]));
    let b = create_test_png(100, 200, Rgba([1, 1, 1, 255]));
    let options = MergeOptions { direction: Direction::Smart, ..Default::default() };
    let p = prepare_merge(&vec![a, b], &options).unwrap();
    let removed = p.trims[0].bottom + p.trims[1].top;
    for bad in [3u32, 4, 10_000] {
        let out = compose_merge(&p, &vec![bad], &options.background).unwrap();
        assert_eq!(decoded_size(&out), (100, 400 - removed));
    }
    let out = compose_merge(&p, &vec![5], &options.background).unwrap();
    assert_eq!(decoded_size(&out), (100, 400 - removed - 5));
}

#[test]
fn short_images_give_no_templates() {
    let none = ChromeTrim::default();
    let top = trimmed_gray(&build_bar_image(200, 300, 0, 0, 1), none);
    let short = trimmed_gray(&build_bar_image(200, 29, 0, 0, 2), none);
    let s = overlap_search(&top, &short, 35).unwrap();
    assert!(s.templates.is_empty());
    let low_top = trimmed_gray(&build_bar_image(200, 30, 0, 0, 1), none);
    let tall = trimmed_gray(&build_bar_image(200, 300, 0, 0, 2), none);
    let s = overlap_search(&low_top, &tall, 35).unwrap();
    assert!(s.templates.is_empty());
    let narrow = trimmed_gray(&build_bar_image(51, 300, 0, 0, 2), none);
    assert!(overlap_search(&narrow, &narrow, 35).is_none());
}

#[test]
fn template_heights_follow_sensitivity() {
    let none = ChromeTrim::default();
    let a = trimmed_gray(&build_bar_image(200, 300, 0, 0, 1), none);
    let b = trimmed_gray(&build_bar_image(200, 300, 0, 0, 2), none);
    let larger_first: Vec<u32> = overlap_search(&a, &b, 35).unwrap().templates.iter().map(|t| t.height).collect();
    assert_eq!(&larger_first[0..6], &[80, 120, 160, 200, 240, 40]);
    let smaller_first: Vec<u32> = overlap_search(&a, &b, 80).unwrap().templates.iter().map(|t| t.height).collect();
    assert_eq!(&smaller_first[0..6], &[80, 40, 120, 160, 200, 240]);
}
