use merge_images_engine::{Direction, compute_output_size, compute_scaled_dimensions, compute_target_dimension};

#[test]
fn test_compute_target_vertical() {
    let dims = vec![(100, 200), (150, 100), (80, 300)];
    let target = compute_target_dimension(&dims, Direction::Vertical);
    assert_eq!(target, 150);
}

#[test]
fn test_compute_target_horizontal() {
    let dims = vec![(100, 200), (150, 100), (80, 300)];
    let target = compute_target_dimension(&dims, Direction::Horizontal);
    assert_eq!(target, 300);
}

#[test]
fn test_compute_target_empty() {
    let dims: Vec<(u32, u32)> = vec![];
    assert_eq!(compute_target_dimension(&dims, Direction::Vertical), 0);
    assert_eq!(compute_target_dimension(&dims, Direction::Horizontal), 0);
}

#[test]
fn test_scaled_dimensions_vertical() {
    let (w, h) = compute_scaled_dimensions(100, 200, 150, Direction::Vertical);
    assert_eq!(w, 150);
    assert_eq!(h, 300);
}

#[test]
fn test_scaled_dimensions_horizontal() {
    let (w, h) = compute_scaled_dimensions(100, 200, 400, Direction::Horizontal);
    assert_eq!(w, 200);
    assert_eq!(h, 400);
}

#[test]
fn test_scaled_dimensions_no_change() {
    let (w, h) = compute_scaled_dimensions(100, 200, 100, Direction::Vertical);
    assert_eq!(w, 100);
    assert_eq!(h, 200);
}

#[test]
fn test_scaled_dimensions_downscale() {
    let (w, h) = compute_scaled_dimensions(200, 400, 100, Direction::Vertical);
    assert_eq!(w, 100);
    assert_eq!(h, 200);
}

#[test]
fn test_round_half_up() {
    let (_, h) = compute_scaled_dimensions(100, 150, 200, Direction::Vertical);
    assert_eq!(h, 300);
    let (_, h) = compute_scaled_dimensions(100, 151, 200, Direction::Vertical);
    assert_eq!(h, 302);
    let (_, h) = compute_scaled_dimensions(100, 101, 150, Direction::Vertical);
    assert_eq!(h, 152);
}

#[test]
fn test_scaled_dimensions_zero() {
    assert_eq!(compute_scaled_dimensions(0, 100, 200, Direction::Vertical), (0, 0));
    assert_eq!(compute_scaled_dimensions(100, 0, 200, Direction::Vertical), (0, 0));
    assert_eq!(compute_scaled_dimensions(100, 200, 0, Direction::Vertical), (0, 0));
}

#[test]
fn test_output_size_vertical() {
    let dims = vec![(150, 300), (150, 150), (150, 200)];
    let (w, h) = compute_output_size(&dims, Direction::Vertical);
    assert_eq!(w, 150);
    assert_eq!(h, 650);
}

#[test]
fn test_output_size_horizontal() {
    let dims = vec![(200, 300), (150, 300), (100, 300)];
    let (w, h) = compute_output_size(&dims, Direction::Horizontal);
    assert_eq!(w, 450);
    assert_eq!(h, 300);
}

#[test]
fn test_output_size_empty() {
    let dims: Vec<(u32, u32)> = vec![];
    assert_eq!(compute_output_size(&dims, Direction::Vertical), (0, 0));
}

#[test]
fn vertical_plan_is_widest_width_and_sum_of_rounded_heights() {
    let dims = vec![(100, 101), (150, 40), (60, 33)];
    let target = compute_target_dimension(&dims, Direction::Vertical);
    assert_eq!(target, 150);
    let scaled: Vec<(u32, u32)> = dims
        .iter()
        .map(|&(w, h)| compute_scaled_dimensions(w, h, target, Direction::Vertical))
        .collect();
    // 101 * 1.5 = 151.5 -> 152; 40 -> 40; 33 * 2.5 = 82.5 -> 83
    assert_eq!(scaled, vec![(150, 152), (150, 40), (150, 83)]);
    assert_eq!(compute_output_size(&scaled, Direction::Vertical), (150, 275));
}

#[test]
fn horizontal_plan_is_tallest_height_and_sum_of_rounded_widths() {
    let dims = vec![(50, 100), (30, 40)];
    let target = compute_target_dimension(&dims, Direction::Horizontal);
    assert_eq!(target, 100);
    let scaled: Vec<(u32, u32)> = dims
        .iter()
        .map(|&(w, h)| compute_scaled_dimensions(w, h, target, Direction::Horizontal))
        .collect();
    assert_eq!(scaled, vec![(50, 100), (75, 100)]);
    assert_eq!(compute_output_size(&scaled, Direction::Horizontal), (125, 100));
}

#[test]
fn smart_plans_like_vertical() {
    assert_eq!(compute_target_dimension(&[(100, 50), (200, 50)], Direction::Smart), 200);
    assert_eq!(compute_scaled_dimensions(100, 50, 200, Direction::Smart), (200, 100));
}

#[test]
fn scaling_rounds_half_up_without_lifting() {
    // 1 * 1 / 3 = 0.33 rounds to 0.
    assert_eq!(compute_scaled_dimensions(3, 1, 1, Direction::Vertical), (1, 0));
    // 1 * 1 / 2 = 0.5 rounds up to 1.
    assert_eq!(compute_scaled_dimensions(2, 1, 1, Direction::Vertical), (1, 1));
    assert_eq!(compute_scaled_dimensions(1, 3, 1, Direction::Horizontal), (0, 1));
}

#[test]
fn scaling_beyond_32_bits_saturates() {
    assert_eq!(compute_scaled_dimensions(1, u32::MAX, 2, Direction::Vertical), (2, u32::MAX));
}
