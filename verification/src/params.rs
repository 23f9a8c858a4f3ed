//! The parameter decoder: configuration text is a JSON object per filter, and
//! any decode failure — malformed syntax, a wrong field type, or a missing
//! field — is silently resolved to the documented default record, never
//! surfaced as an error. The JSON itself is read through serde_json; the
//! fallback policy is the verified logic of this module.

use vstd::prelude::*;

verus! {

/// Options record of the Box Blur filter: `iterations` sequential passes,
/// each averaging over the square neighborhood of half-width `radius`.
#[derive(Clone, Copy, PartialEq, Eq, Structural, Debug)]
pub struct BlurParams {
    /// Half-width of the square averaging neighborhood.
    pub radius: u32,
    /// Number of sequential blur passes.
    pub iterations: u32,
}

/// Options record of the Mirror filter: two independent axis flips.
#[derive(Clone, Copy, PartialEq, Eq, Structural, Debug)]
pub struct MirrorParams {
    /// Flip along the horizontal axis (reverse each row).
    pub horizontal: bool,
    /// Flip along the vertical axis (reverse the order of the rows).
    pub vertical: bool,
}

/// The documented default Box Blur record, substituted on decode failure.
pub open spec fn default_blur_params() -> BlurParams {
    BlurParams { radius: 1, iterations: 1 }
}

/// The documented default Mirror record, substituted on decode failure.
pub open spec fn default_mirror_params() -> MirrorParams {
    MirrorParams { horizontal: false, vertical: false }
}

/// The Box Blur record decoded from the two extracted fields: both must be
/// present as unsigned integers that fit `u32`, else the whole record falls
/// back to the default — fields are never substituted one at a time.
pub open spec fn spec_blur_params_from_fields(
    radius: Option<u64>,
    iterations: Option<u64>,
) -> BlurParams {
    match (radius, iterations) {
        (Some(r), Some(i)) => if r <= u32::MAX && i <= u32::MAX {
            BlurParams { radius: r as u32, iterations: i as u32 }
        } else {
            default_blur_params()
        },
        _ => default_blur_params(),
    }
}

/// The Mirror record decoded from the two extracted fields: both must be
/// present as JSON booleans, else the whole record falls back to the default.
pub open spec fn spec_mirror_params_from_fields(
    horizontal: Option<bool>,
    vertical: Option<bool>,
) -> MirrorParams {
    match (horizontal, vertical) {
        (Some(h), Some(v)) => MirrorParams { horizontal: h, vertical: v },
        _ => default_mirror_params(),
    }
}

/// The `radius` field that JSON decoding extracts from Box Blur
/// configuration text: present exactly when the text is a JSON document whose
/// top level is an object holding `radius` as an unsigned integer
/// representable in `u64`. The extraction depends on the text alone.
pub uninterp spec fn blur_radius_field_of(s: Seq<char>) -> Option<u64>;

/// The `iterations` field that JSON decoding extracts from Box Blur
/// configuration text, under the same convention as `blur_radius_field_of`.
pub uninterp spec fn blur_iterations_field_of(s: Seq<char>) -> Option<u64>;

/// The `horizontal` field that JSON decoding extracts from Mirror
/// configuration text: present exactly when the text is a JSON document whose
/// top level is an object holding `horizontal` as a boolean. The extraction
/// depends on the text alone.
pub uninterp spec fn mirror_horizontal_field_of(s: Seq<char>) -> Option<bool>;

/// The `vertical` field that JSON decoding extracts from Mirror configuration
/// text, under the same convention as `mirror_horizontal_field_of`.
pub uninterp spec fn mirror_vertical_field_of(s: Seq<char>) -> Option<bool>;

/// The configuration text a filter call decodes: the supplied text, or empty
/// text when the configuration is absent.
pub open spec fn spec_config_text(params: Option<&str>) -> Seq<char> {
    match params {
        Some(t) => t@,
        None => Seq::empty(),
    }
}

/// Relies on serde_json::from_str::<serde_json::Value>, Value::get with the
/// key "radius", and Value::as_u64: the extracted field is a function of the
/// text alone; empty text holds no JSON document, so nothing is extracted.
#[verifier::external_body]
fn extract_blur_radius(text: &str) -> (r: Option<u64>)
    ensures
        r == blur_radius_field_of(text@),
        text@.len() == 0 ==> r is None,
{
    match serde_json::from_str::<serde_json::Value>(text) {
        Ok(doc) => match doc.get("radius") {
            Some(v) => v.as_u64(),
            None => None,
        },
        Err(_) => None,
    }
}

/// Relies on serde_json::from_str::<serde_json::Value>, Value::get with the
/// key "iterations", and Value::as_u64: the extracted field is a function of
/// the text alone; empty text holds no JSON document, so nothing is
/// extracted.
#[verifier::external_body]
fn extract_blur_iterations(text: &str) -> (r: Option<u64>)
    ensures
        r == blur_iterations_field_of(text@),
        text@.len() == 0 ==> r is None,
{
    match serde_json::from_str::<serde_json::Value>(text) {
        Ok(doc) => match doc.get("iterations") {
            Some(v) => v.as_u64(),
            None => None,
        },
        Err(_) => None,
    }
}

/// Relies on serde_json::from_str::<serde_json::Value>, Value::get with the
/// key "horizontal", and Value::as_bool: the extracted field is a function of
/// the text alone; empty text holds no JSON document, so nothing is
/// extracted.
#[verifier::external_body]
fn extract_mirror_horizontal(text: &str) -> (r: Option<bool>)
    ensures
        r == mirror_horizontal_field_of(text@),
        text@.len() == 0 ==> r is None,
{
    match serde_json::from_str::<serde_json::Value>(text) {
        Ok(doc) => match doc.get("horizontal") {
            Some(v) => v.as_bool(),
            None => None,
        },
        Err(_) => None,
    }
}

/// Relies on serde_json::from_str::<serde_json::Value>, Value::get with the
/// key "vertical", and Value::as_bool: the extracted field is a function of
/// the text alone; empty text holds no JSON document, so nothing is
/// extracted.
#[verifier::external_body]
fn extract_mirror_vertical(text: &str) -> (r: Option<bool>)
    ensures
        r == mirror_vertical_field_of(text@),
        text@.len() == 0 ==> r is None,
{
    match serde_json::from_str::<serde_json::Value>(text) {
        Ok(doc) => match doc.get("vertical") {
            Some(v) => v.as_bool(),
            None => None,
        },
        Err(_) => None,
    }
}

/// Combines the two extracted Box Blur fields into a fully populated record,
/// substituting the default record whenever either field is unusable.
pub fn blur_params_from_fields(radius: Option<u64>, iterations: Option<u64>) -> (p: BlurParams)
    ensures
        p == spec_blur_params_from_fields(radius, iterations),
{
    match (radius, iterations) {
        (Some(r), Some(i)) => if r <= u32::MAX as u64 && i <= u32::MAX as u64 {
            BlurParams { radius: r as u32, iterations: i as u32 }
        } else {
            BlurParams { radius: 1, iterations: 1 }
        },
        _ => BlurParams { radius: 1, iterations: 1 },
    }
}

/// Combines the two extracted Mirror fields into a fully populated record,
/// substituting the default record whenever either field is unusable.
pub fn mirror_params_from_fields(horizontal: Option<bool>, vertical: Option<bool>) -> (p:
    MirrorParams)
    ensures
        p == spec_mirror_params_from_fields(horizontal, vertical),
{
    match (horizontal, vertical) {
        (Some(h), Some(v)) => MirrorParams { horizontal: h, vertical: v },
        _ => MirrorParams { horizontal: false, vertical: false },
    }
}

/// The Box Blur record that given configuration text decodes to: the two
/// extracted fields, combined under the whole-record fallback policy.
pub open spec fn spec_decoded_blur_params(s: Seq<char>) -> BlurParams {
    spec_blur_params_from_fields(blur_radius_field_of(s), blur_iterations_field_of(s))
}

/// The Mirror record that given configuration text decodes to: the two
/// extracted fields, combined under the whole-record fallback policy.
pub open spec fn spec_decoded_mirror_params(s: Seq<char>) -> MirrorParams {
    spec_mirror_params_from_fields(mirror_horizontal_field_of(s), mirror_vertical_field_of(s))
}

/// Decodes Box Blur configuration text, yielding a fully populated record by
/// construction: exactly the record the extracted fields combine to, and the
/// default record for empty text (the absent-configuration case).
pub fn decode_blur_params(text: &str) -> (p: BlurParams)
    ensures
        p == spec_decoded_blur_params(text@),
        text@.len() == 0 ==> p == default_blur_params(),
{
    let radius = extract_blur_radius(text);
    let iterations = extract_blur_iterations(text);
    blur_params_from_fields(radius, iterations)
}

/// Decodes Mirror configuration text, yielding a fully populated record by
/// construction: exactly the record the extracted fields combine to, and the
/// default record for empty text (the absent-configuration case).
pub fn decode_mirror_params(text: &str) -> (p: MirrorParams)
    ensures
        p == spec_decoded_mirror_params(text@),
        text@.len() == 0 ==> p == default_mirror_params(),
{
    let horizontal = extract_mirror_horizontal(text);
    let vertical = extract_mirror_vertical(text);
    mirror_params_from_fields(horizontal, vertical)
}

} // verus!
