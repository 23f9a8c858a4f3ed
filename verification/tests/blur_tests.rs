use image_plugins::blur::process_image;
use image_plugins::params::BlurParams;

#[test]
fn test_blur_single_pixel() {
    let mut data = vec![255, 0, 0, 255];
    let result = process_image(1, 1, &mut data, Some(r#"{"radius": 2, "iterations": 3}"#));
    assert_eq!(result, 0);
    assert_eq!(data, vec![255, 0, 0, 255]);
}

#[test]
fn test_blur_overflow_prevention() {
    let mut dummy = vec![0u8; 4];
    let result = process_image(
        u32::MAX,
        u32::MAX,
        &mut dummy,
        Some(r#"{"radius": 1, "iterations": 1}"#),
    );
    assert_eq!(result, -1);
}

#[test]
fn test_overflow_prevention() {
    let mut dummy = vec![0u8; 4];
    let result = process_image(u32::MAX, u32::MAX, &mut dummy, None);
    assert_eq!(
        result, -1,
        "overflow must yield the failure code (-1), not a panic"
    );
}

#[test]
fn test_zero_size_image() {
    let mut dummy = Vec::<u8>::new();
    let result = process_image(0, 0, &mut dummy, None);
    assert_eq!(result, 0, "an empty (0 by 0) image must succeed");
}

#[test]
fn blur_overflow_writes_nothing() {
    let mut dummy = vec![7u8, 8, 9, 10];
    let result = process_image(u32::MAX, 2, &mut dummy, None);
    assert_eq!(result, -1);
    assert_eq!(dummy, vec![7u8, 8, 9, 10], "a failed call must not touch the buffer");
}

#[test]
fn blur_uniform_image_is_fixed_point() {
    let mut data = vec![
        90, 120, 50, 200, 90, 120, 50, 200, 90, 120, 50, 200, 90, 120, 50, 200, 90, 120, 50, 200,
        90, 120, 50, 200,
    ];
    let expected = data.clone();
    let result = process_image(3, 2, &mut data, Some(r#"{"radius": 1, "iterations": 4}"#));
    assert_eq!(result, 0);
    assert_eq!(data, expected);
}

#[test]
fn blur_zero_radius_is_noop() {
    let mut data = vec![1, 2, 3, 4, 200, 150, 100, 50];
    let expected = data.clone();
    let result = process_image(2, 1, &mut data, Some(r#"{"radius": 0, "iterations": 5}"#));
    assert_eq!(result, 0);
    assert_eq!(data, expected);
}

#[test]
fn blur_two_by_one_exact_average() {
    // Each pixel's window covers both pixels, so every channel becomes the
    // truncated mean of the two.
    let mut data = vec![10, 0, 255, 255, 30, 0, 0, 255];
    let result = process_image(2, 1, &mut data, Some(r#"{"radius": 1, "iterations": 1}"#));
    assert_eq!(result, 0);
    // (10+30)/2 = 20; (255+0)/2 = 127 (truncated); (255+255)/2 = 255
    assert_eq!(data, vec![20, 0, 127, 255, 20, 0, 127, 255]);
}

#[test]
fn blur_edge_divisor_shrinks() {
    // 3x1 row, radius 1: the edge pixels average two neighbors, the middle
    // pixel averages three.
    let mut data = vec![30, 0, 0, 255, 60, 0, 0, 255, 120, 0, 0, 255];
    let result = process_image(3, 1, &mut data, Some(r#"{"radius": 1, "iterations": 1}"#));
    assert_eq!(result, 0);
    // (30+60)/2 = 45; (30+60+120)/3 = 70; (60+120)/2 = 90
    assert_eq!(data, vec![45, 0, 0, 255, 70, 0, 0, 255, 90, 0, 0, 255]);
}

#[test]
fn blur_two_iterations_equal_two_single_passes() {
    let start = vec![30, 10, 0, 255, 60, 20, 0, 255, 120, 40, 80, 255];
    let mut twice = start.clone();
    let result = process_image(3, 1, &mut twice, Some(r#"{"radius": 1, "iterations": 2}"#));
    assert_eq!(result, 0);

    let mut step = start.clone();
    assert_eq!(
        process_image(3, 1, &mut step, Some(r#"{"radius": 1, "iterations": 1}"#)),
        0
    );
    assert_eq!(
        process_image(3, 1, &mut step, Some(r#"{"radius": 1, "iterations": 1}"#)),
        0
    );
    assert_eq!(twice, step);
}

#[test]
fn blur_malformed_config_acts_as_default() {
    let start = vec![30, 10, 0, 255, 60, 20, 0, 255, 120, 40, 80, 255];

    let mut with_garbage = start.clone();
    let r1 = process_image(3, 1, &mut with_garbage, Some("not a json document"));
    assert_eq!(r1, 0, "malformed configuration must never fail the call");

    let mut with_default = start.clone();
    let r2 = process_image(3, 1, &mut with_default, Some(r#"{"radius": 1, "iterations": 1}"#));
    assert_eq!(r2, 0);
    assert_eq!(with_garbage, with_default);
}

#[test]
fn blur_missing_field_acts_as_default() {
    let start = vec![30, 10, 0, 255, 60, 20, 0, 255, 120, 40, 80, 255];

    let mut with_partial = start.clone();
    // `iterations` is missing: the whole record falls back to the default,
    // so the given radius is discarded too.
    let r1 = process_image(3, 1, &mut with_partial, Some(r#"{"radius": 0}"#));
    assert_eq!(r1, 0);

    let mut with_default = start.clone();
    let r2 = process_image(3, 1, &mut with_default, Some(r#"{"radius": 1, "iterations": 1}"#));
    assert_eq!(r2, 0);
    assert_eq!(with_partial, with_default);
}

#[test]
fn blur_params_are_plain_data() {
    let p = BlurParams { radius: 2, iterations: 3 };
    assert_eq!(p.radius, 2);
    assert_eq!(p.iterations, 3);
}
