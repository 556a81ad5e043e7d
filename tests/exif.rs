use merge_images_engine::{Orientation, RgbaGrid, extract_orientation, normalize_orientation, scale_image};

fn jpeg_with_orientation(value: u16, little_endian: bool) -> Vec<u8> {
    let mut tiff: Vec<u8> = Vec::new();
    let u16b = |v: u16| if little_endian { v.to_le_bytes() } else { v.to_be_bytes() };
    let u32b = |v: u32| if little_endian { v.to_le_bytes() } else { v.to_be_bytes() };
    tiff.extend_from_slice(if little_endian { b"II" } else { b"MM" });
    tiff.extend_from_slice(&u16b(42));
    tiff.extend_from_slice(&u32b(8));
    tiff.extend_from_slice(&u16b(1));
    tiff.extend_from_slice(&u16b(0x0112));
    tiff.extend_from_slice(&u16b(3));
    tiff.extend_from_slice(&u32b(1));
    tiff.extend_from_slice(&u16b(value));
    tiff.extend_from_slice(&[0, 0]);
    tiff.extend_from_slice(&u32b(0));
    let mut payload: Vec<u8> = b"Exif\0\0".to_vec();
    payload.extend_from_slice(&tiff);
    let len = (payload.len() + 2) as u16;
    let mut bytes = vec![0xFF, 0xD8, 0xFF, 0xE1];
    bytes.extend_from_slice(&len.to_be_bytes());
    bytes.extend_from_slice(&payload);
    bytes.extend_from_slice(&[0xFF, 0xD9]);
    bytes
}

fn pattern_grid(width: u32, height: u32) -> RgbaGrid {
    let mut pixels = Vec::new();
    for y in 0..height {
        for x in 0..width {
            pixels.extend_from_slice(&[x as u8, y as u8, 7, 255]);
        }
    }
    RgbaGrid { width, height, pixels }
}

fn px(g: &RgbaGrid, x: u32, y: u32) -> [u8; 4] {
    let i = ((y * g.width + x) * 4) as usize;
    [g.pixels[i], g.pixels[i + 1], g.pixels[i + 2], g.pixels[i + 3]]
}

#[test]
fn test_orientation_from_value() {
    assert_eq!(Orientation::from(1), Orientation::Normal);
    assert_eq!(Orientation::from(6), Orientation::Rotate90);
    assert_eq!(Orientation::from(3), Orientation::Rotate180);
    assert_eq!(Orientation::from(8), Orientation::Rotate270);
    assert_eq!(Orientation::from(99), Orientation::Normal);
}

#[test]
fn test_orientation_default() {
    assert_eq!(Orientation::default(), Orientation::Normal);
}

#[test]
fn test_extract_orientation_non_jpeg() {
    let png_bytes = [0x89, 0x50, 0x4E, 0x47, 0x0D, 0x0A, 0x1A, 0x0A];
    assert_eq!(extract_orientation(&png_bytes), Orientation::Normal);
    assert_eq!(extract_orientation(&[]), Orientation::Normal);
    assert_eq!(extract_orientation(&[0xFF]), Orientation::Normal);
}

#[test]
fn test_extract_orientation_jpeg_no_exif() {
    let jpeg_bytes = [0xFF, 0xD8, 0xFF, 0xD9];
    assert_eq!(extract_orientation(&jpeg_bytes), Orientation::Normal);
}

#[test]
fn extract_orientation_reads_both_byte_orders() {
    assert_eq!(extract_orientation(&jpeg_with_orientation(6, true)), Orientation::Rotate90);
    assert_eq!(extract_orientation(&jpeg_with_orientation(3, false)), Orientation::Rotate180);
    assert_eq!(extract_orientation(&jpeg_with_orientation(5, true)), Orientation::Rotate90FlipH);
}

#[test]
fn extract_orientation_invalid_tag_value_is_normal() {
    assert_eq!(extract_orientation(&jpeg_with_orientation(99, true)), Orientation::Normal);
    assert_eq!(extract_orientation(&jpeg_with_orientation(0, false)), Orientation::Normal);
    assert_eq!(Orientation::from(0), Orientation::Normal);
    assert_eq!(Orientation::from(9), Orientation::Normal);
}

#[test]
fn extract_orientation_truncated_segment_is_normal() {
    let mut bytes = jpeg_with_orientation(6, true);
    bytes.truncate(20);
    assert_eq!(extract_orientation(&bytes), Orientation::Normal);
    // A zero-length segment is skipped without reading past it.
    assert_eq!(extract_orientation(&[0xFF, 0xD8, 0xFF, 0xE1, 0x00, 0x00, 0xFF, 0xD9]), Orientation::Normal);
}

#[test]
fn test_normalize_identity() {
    let img = RgbaGrid { width: 10, height: 20, pixels: vec![0; 800] };
    let normalized = normalize_orientation(img.clone(), Orientation::Normal);
    assert_eq!(normalized.width, 10);
    assert_eq!(normalized.height, 20);
}

#[test]
fn test_normalize_rotate90() {
    let img = RgbaGrid { width: 10, height: 20, pixels: vec![0; 800] };
    let normalized = normalize_orientation(img, Orientation::Rotate90);
    assert_eq!(normalized.width, 20);
    assert_eq!(normalized.height, 10);
}

#[test]
fn test_normalize_rotate180() {
    let img = RgbaGrid { width: 10, height: 20, pixels: vec![0; 800] };
    let normalized = normalize_orientation(img, Orientation::Rotate180);
    assert_eq!(normalized.width, 10);
    assert_eq!(normalized.height, 20);
}

#[test]
fn test_normalize_rotate270() {
    let img = RgbaGrid { width: 10, height: 20, pixels: vec![0; 800] };
    let normalized = normalize_orientation(img, Orientation::Rotate270);
    assert_eq!(normalized.width, 20);
    assert_eq!(normalized.height, 10);
}

#[test]
fn test_normalize_flip_horizontal() {
    let img = RgbaGrid { width: 10, height: 20, pixels: vec![0; 800] };
    let normalized = normalize_orientation(img, Orientation::FlipHorizontal);
    assert_eq!(normalized.width, 10);
    assert_eq!(normalized.height, 20);
}

#[test]
fn test_normalize_flip_vertical() {
    let img = RgbaGrid { width: 10, height: 20, pixels: vec![0; 800] };
    let normalized = normalize_orientation(img, Orientation::FlipVertical);
    assert_eq!(normalized.width, 10);
    assert_eq!(normalized.height, 20);
}

#[test]
fn normalize_normal_keeps_every_pixel() {
    let img = pattern_grid(5, 3);
    let normalized = normalize_orientation(img.clone(), Orientation::Normal);
    assert_eq!(normalized.pixels, img.pixels);
}

#[test]
fn normalize_moves_pixels() {
    let img = pattern_grid(5, 3);
    let flipped = normalize_orientation(img.clone(), Orientation::FlipHorizontal);
    assert_eq!(px(&flipped, 0, 1), px(&img, 4, 1));
    let flipped = normalize_orientation(img.clone(), Orientation::FlipVertical);
    assert_eq!(px(&flipped, 1, 0), px(&img, 1, 2));
    let turned = normalize_orientation(img.clone(), Orientation::Rotate180);
    assert_eq!(px(&turned, 0, 0), px(&img, 4, 2));
    // A quarter turn clockwise: the output pixel (x, y) is source (y, h - 1 - x).
    let turned = normalize_orientation(img.clone(), Orientation::Rotate90);
    assert_eq!(px(&turned, 0, 1), px(&img, 1, 2));
    let turned = normalize_orientation(img.clone(), Orientation::Rotate270);
    assert_eq!(px(&turned, 0, 1), px(&img, 3, 0));
    let both = normalize_orientation(img.clone(), Orientation::Rotate90FlipH);
    assert_eq!((both.width, both.height), (3, 5));
    let both = normalize_orientation(img, Orientation::Rotate270FlipH);
    assert_eq!((both.width, both.height), (3, 5));
}

#[test]
fn test_scale_image_basic() {
    let mut pixels = Vec::new();
    for _ in 0..100 {
        pixels.extend_from_slice(&[255, 0, 0, 255]);
    }
    let img = RgbaGrid { width: 10, height: 10, pixels };
    let scaled = scale_image(&img, 20, 20);
    assert_eq!(scaled.width, 20);
    assert_eq!(scaled.height, 20);
    assert_eq!(scaled.pixels.len(), 20 * 20 * 4);
    assert_eq!(&scaled.pixels[0..4], &[255, 0, 0, 255]);
}

#[test]
fn test_scale_image_downscale() {
    let img = RgbaGrid { width: 100, height: 100, pixels: vec![0; 40000] };
    let scaled = scale_image(&img, 50, 50);
    assert_eq!(scaled.width, 50);
    assert_eq!(scaled.height, 50);
}

#[test]
fn test_scale_image_no_change() {
    let img = RgbaGrid { width: 100, height: 200, pixels: vec![0; 80000] };
    let scaled = scale_image(&img, 100, 200);
    assert_eq!(scaled.width, 100);
    assert_eq!(scaled.height, 200);
}

#[test]
fn test_scale_image_aspect_change() {
    let img = RgbaGrid { width: 100, height: 100, pixels: vec![0; 40000] };
    let scaled = scale_image(&img, 200, 100);
    assert_eq!(scaled.width, 200);
    assert_eq!(scaled.height, 100);
}
