use image_plugins::params::{
    blur_params_from_fields, decode_blur_params, decode_mirror_params, mirror_params_from_fields,
    BlurParams, MirrorParams,
};

#[test]
fn decode_blur_valid_document() {
    let p = decode_blur_params(r#"{"radius": 2, "iterations": 3}"#);
    assert_eq!(p, BlurParams { radius: 2, iterations: 3 });
}

#[test]
fn decode_blur_extra_fields_are_ignored() {
    let p = decode_blur_params(r#"{"radius": 4, "iterations": 1, "comment": "wide"}"#);
    assert_eq!(p, BlurParams { radius: 4, iterations: 1 });
}

#[test]
fn decode_blur_malformed_syntax_falls_back() {
    let p = decode_blur_params("{radius: oops");
    assert_eq!(p, BlurParams { radius: 1, iterations: 1 });
}

#[test]
fn decode_blur_empty_text_falls_back() {
    let p = decode_blur_params("");
    assert_eq!(p, BlurParams { radius: 1, iterations: 1 });
}

#[test]
fn decode_blur_missing_field_falls_back_entirely() {
    let p = decode_blur_params(r#"{"radius": 9}"#);
    assert_eq!(p, BlurParams { radius: 1, iterations: 1 });
}

#[test]
fn decode_blur_wrong_type_falls_back() {
    let p = decode_blur_params(r#"{"radius": -3, "iterations": 2}"#);
    assert_eq!(p, BlurParams { radius: 1, iterations: 1 });
    let q = decode_blur_params(r#"{"radius": 2.5, "iterations": 2}"#);
    assert_eq!(q, BlurParams { radius: 1, iterations: 1 });
}

#[test]
fn decode_blur_oversized_number_falls_back() {
    let p = decode_blur_params(r#"{"radius": 4294967296, "iterations": 2}"#);
    assert_eq!(p, BlurParams { radius: 1, iterations: 1 });
}

#[test]
fn decode_blur_non_object_falls_back() {
    let p = decode_blur_params("42");
    assert_eq!(p, BlurParams { radius: 1, iterations: 1 });
}

#[test]
fn decode_mirror_valid_document() {
    let p = decode_mirror_params(r#"{"horizontal": true, "vertical": false}"#);
    assert_eq!(p, MirrorParams { horizontal: true, vertical: false });
}

#[test]
fn decode_mirror_malformed_falls_back() {
    let p = decode_mirror_params("[true, false]");
    assert_eq!(p, MirrorParams { horizontal: false, vertical: false });
}

#[test]
fn decode_mirror_wrong_type_falls_back() {
    let p = decode_mirror_params(r#"{"horizontal": 1, "vertical": true}"#);
    assert_eq!(p, MirrorParams { horizontal: false, vertical: false });
}

#[test]
fn blur_fields_combine_exactly() {
    assert_eq!(
        blur_params_from_fields(Some(3), Some(7)),
        BlurParams { radius: 3, iterations: 7 }
    );
    assert_eq!(
        blur_params_from_fields(Some(3), None),
        BlurParams { radius: 1, iterations: 1 }
    );
    assert_eq!(
        blur_params_from_fields(None, Some(7)),
        BlurParams { radius: 1, iterations: 1 }
    );
    assert_eq!(
        blur_params_from_fields(Some(1 << 40), Some(7)),
        BlurParams { radius: 1, iterations: 1 }
    );
}

#[test]
fn mirror_fields_combine_exactly() {
    assert_eq!(
        mirror_params_from_fields(Some(true), Some(true)),
        MirrorParams { horizontal: true, vertical: true }
    );
    assert_eq!(
        mirror_params_from_fields(Some(true), None),
        MirrorParams { horizontal: false, vertical: false }
    );
    assert_eq!(
        mirror_params_from_fields(None, Some(false)),
        MirrorParams { horizontal: false, vertical: false }
    );
}
