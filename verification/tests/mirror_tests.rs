use image_plugins::mirror::process_image;

#[test]
fn test_mirror_horizontal_2x1() {
    let mut data = vec![
        255, 0, 0, 255, // red pixel (0,0)
        0, 0, 255, 255, // blue pixel (1,0)
    ];
    let result = process_image(
        2,
        1,
        &mut data,
        Some(r#"{"horizontal": true, "vertical": false}"#),
    );
    assert_eq!(result, 0, "the call must succeed");
    assert_eq!(
        data,
        vec![
            0, 0, 255, 255, // blue pixel (now at 0,0)
            255, 0, 0, 255, // red pixel (now at 1,0)
        ],
        "horizontal mirroring must swap the pixels"
    );
}

#[test]
fn test_mirror_vertical_1x2() {
    let mut data = vec![
        0, 255, 0, 255, // green pixel (0,0)
        255, 255, 0, 255, // yellow pixel (0,1)
    ];
    let result = process_image(
        1,
        2,
        &mut data,
        Some(r#"{"horizontal": false, "vertical": true}"#),
    );
    assert_eq!(result, 0, "the call must succeed");
    assert_eq!(
        data,
        vec![
            255, 255, 0, 255, // yellow pixel (now at 0,0)
            0, 255, 0, 255, // green pixel (now at 0,1)
        ],
        "vertical mirroring must swap the pixels"
    );
}

#[test]
fn test_mirror_both_2x2() {
    let mut data = vec![
        255, 0, 0, 255, // red (0,0)
        0, 255, 0, 255, // green (1,0)
        0, 0, 255, 255, // blue (0,1)
        255, 255, 0, 255, // yellow (1,1)
    ];
    let result = process_image(
        2,
        2,
        &mut data,
        Some(r#"{"horizontal": true, "vertical": true}"#),
    );
    assert_eq!(result, 0, "the call must succeed");
    assert_eq!(
        data,
        vec![
            255, 255, 0, 255, // yellow (now top left)
            0, 0, 255, 255, // blue
            0, 255, 0, 255, // green
            255, 0, 0, 255, // red (now bottom right)
        ],
        "mirroring along both axes must reflect the image through its center"
    );
}

#[test]
fn lib_test_overflow_prevention() {
    let mut dummy = vec![0u8; 4];
    let result = process_image(u32::MAX, u32::MAX, &mut dummy, None);
    assert_eq!(
        result, -1,
        "overflow must yield the failure code (-1), not a panic"
    );
}

#[test]
fn lib_test_zero_size_image() {
    let mut dummy = Vec::<u8>::new();
    let result = process_image(0, 0, &mut dummy, None);
    assert_eq!(result, 0, "an empty (0 by 0) image must succeed");
}

#[test]
fn mirror_reverses_three_pixel_row() {
    let mut data = vec![
        1, 2, 3, 4, // pixel A
        5, 6, 7, 8, // pixel B
        9, 10, 11, 12, // pixel C
    ];
    let result = process_image(3, 1, &mut data, Some(r#"{"horizontal": true, "vertical": false}"#));
    assert_eq!(result, 0);
    assert_eq!(data, vec![9, 10, 11, 12, 5, 6, 7, 8, 1, 2, 3, 4]);
}

#[test]
fn mirror_both_flags_equal_two_single_flips() {
    let start = vec![
        1, 2, 3, 4, 5, 6, 7, 8, // row 0
        9, 10, 11, 12, 13, 14, 15, 16, // row 1
    ];
    let mut both = start.clone();
    assert_eq!(
        process_image(2, 2, &mut both, Some(r#"{"horizontal": true, "vertical": true}"#)),
        0
    );
    let mut stepwise = start.clone();
    assert_eq!(
        process_image(2, 2, &mut stepwise, Some(r#"{"horizontal": false, "vertical": true}"#)),
        0
    );
    assert_eq!(
        process_image(2, 2, &mut stepwise, Some(r#"{"horizontal": true, "vertical": false}"#)),
        0
    );
    assert_eq!(both, stepwise);
}

#[test]
fn mirror_malformed_config_acts_as_default() {
    let start = vec![1, 2, 3, 4, 5, 6, 7, 8];
    let mut data = start.clone();
    let result = process_image(2, 1, &mut data, Some("{\"horizontal\": \"yes\"}"));
    assert_eq!(result, 0, "malformed configuration must never fail the call");
    assert_eq!(data, start, "the default record flips nothing");
}

#[test]
fn mirror_absent_config_flips_nothing() {
    let start = vec![1, 2, 3, 4, 5, 6, 7, 8];
    let mut data = start.clone();
    let result = process_image(2, 1, &mut data, None);
    assert_eq!(result, 0);
    assert_eq!(data, start);
}

#[test]
fn mirror_overflow_writes_nothing() {
    let mut dummy = vec![7u8, 8, 9, 10];
    let result = process_image(2, u32::MAX, &mut dummy, None);
    assert_eq!(result, -1);
    assert_eq!(dummy, vec![7u8, 8, 9, 10], "a failed call must not touch the buffer");
}
