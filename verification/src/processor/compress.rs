use vstd::prelude::*;

use vstd::string::*;

use crate::imaging::{
    decoded_size, encode_jpeg, encode_webp, spec_encoded_jpeg, spec_encoded_webp, spec_image_size,
};
use crate::text::text_eq;

verus! {

/// How to resize images in a process job.
#[derive(Debug, Clone, Copy, PartialEq, Eq)]
pub enum ResizeMode {
    /// No resizing.
    Unchanged,
    /// Scale to exactly half the original pixel dimensions.
    Half,
    /// Fit within a fixed bounding box (W×H), auto-swapped for portrait images.
    /// Never upscales.
    Fixed { width: u32, height: u32 },
}

impl Default for ResizeMode {
    fn default() -> (r: Self)
        ensures
            r == ResizeMode::Unchanged,
    {
        ResizeMode::Unchanged
    }
}

/// Parameters of a compress/resize/convert operation.
#[derive(Debug, Clone, PartialEq)]
pub struct ProcessParams {
    pub quality: Option<u8>,
    /// Legacy flat fields kept for backwards compat with old jobs stored in DB.
    pub width: Option<u32>,
    pub height: Option<u32>,
    pub fit: Option<String>,
    pub target_format: Option<String>,
    /// New unified resize spec. Takes precedence over width/height when present.
    pub resize: ResizeMode,
}

/// The target box, turned a quarter when the image and the box differ in
/// orientation (one portrait, the other not).
pub open spec fn spec_orientation_aware_target(orig_w: u32, orig_h: u32, target_w: u32, target_h: u32) -> (u32, u32) {
    if (orig_h > orig_w) != (target_h > target_w) {
        (target_h, target_w)
    } else {
        (target_w, target_h)
    }
}

/// Swap target dimensions when original and target orientations differ.
/// e.g. original is portrait (h > w) but target is landscape (w > h) → swap target to portrait.
pub fn orientation_aware_target(orig_w: u32, orig_h: u32, target_w: u32, target_h: u32) -> (r: (u32, u32))
    ensures
        r == spec_orientation_aware_target(orig_w, orig_h, target_w, target_h),
{
    let orig_portrait = orig_h > orig_w;
    let target_portrait = target_h > target_w;
    if orig_portrait != target_portrait {
        (target_h, target_w)
    } else {
        (target_w, target_h)
    }
}

/// `a.0 / a.1 <= b.0 / b.1` for positive denominators.
pub open spec fn ratio_le(a: (int, int), b: (int, int)) -> bool {
    a.0 * b.1 <= b.0 * a.1
}

/// Scale (numerator, denominator) that fits `orig_w × orig_h` inside
/// `box_w × box_h` without enlarging: the least of `box_w / orig_w`,
/// `box_h / orig_h` and 1, a ratio with a zero denominator taking no part.
pub open spec fn fit_scale(orig_w: int, orig_h: int, box_w: int, box_h: int) -> (int, int) {
    let s1 = if orig_w > 0 && ratio_le((box_w, orig_w), (1, 1)) {
        (box_w, orig_w)
    } else {
        (1, 1)
    };
    if orig_h > 0 && ratio_le((box_h, orig_h), s1) {
        (box_h, orig_h)
    } else {
        s1
    }
}

/// `v × num / den` rounded to the nearest integer, halves away from zero. The
/// product and the rounding are exact; a computation in `f64` (a float quotient
/// times `v`, then `round`) can land just below a half and round down, e.g.
/// 45 × 7/10 gives 31.499999999999996 in `f64`, 31.5 here.
pub open spec fn round_scaled(v: int, s: (int, int)) -> int {
    (2 * v * s.0 + s.1) / (2 * s.1)
}

/// `orig_w × orig_h` scaled to fit inside `box_w × box_h`, never enlarged; the scale
/// and the rounding are exact rationals (see `round_scaled` for where this differs
/// from floating point).
pub open spec fn spec_fit_within(orig_w: u32, orig_h: u32, box_w: u32, box_h: u32) -> (int, int) {
    let s = fit_scale(orig_w as int, orig_h as int, box_w as int, box_h as int);
    (round_scaled(orig_w as int, s), round_scaled(orig_h as int, s))
}

/// The output size that `estimate_output_size` predicts.
pub open spec fn spec_estimate_output_size(orig_w: u32, orig_h: u32, resize: ResizeMode) -> (int, int) {
    match resize {
        ResizeMode::Unchanged => (orig_w as int, orig_h as int),
        ResizeMode::Half => (orig_w as int / 2, orig_h as int / 2),
        ResizeMode::Fixed { width, height } => {
            let t = spec_orientation_aware_target(orig_w, orig_h, width, height);
            spec_fit_within(orig_w, orig_h, t.0, t.1)
        },
    }
}

proof fn lemma_round_scaled_bound(v: int, s: (int, int))
    requires
        v >= 0,
        s.0 >= 0,
        s.1 > 0,
        s.0 <= s.1,
    ensures
        0 <= round_scaled(v, s) <= v,
{
    assert(2 * v * s.0 <= 2 * v * s.1) by (nonlinear_arith)
        requires
            v >= 0,
            s.0 <= s.1,
    ;
    assert(0 <= 2 * v * s.0) by (nonlinear_arith)
        requires
            v >= 0,
            s.0 >= 0,
    ;
    assert((2 * v * s.0 + s.1) / (2 * s.1) <= (2 * v * s.1 + s.1) / (2 * s.1)) by (nonlinear_arith)
        requires
            2 * v * s.0 <= 2 * v * s.1,
            s.1 > 0,
    ;
    assert((2 * v * s.1 + s.1) / (2 * s.1) == v) by (nonlinear_arith)
        requires
            s.1 > 0,
    ;
    assert(0 <= (2 * v * s.0 + s.1) / (2 * s.1)) by (nonlinear_arith)
        requires
            0 <= 2 * v * s.0,
            s.1 > 0,
    ;
}

/// `v × num / den` rounded half up, computed exactly.
fn round_scaled_exec(v: u32, num: u32, den: u32) -> (r: u32)
    requires
        den > 0,
        num <= den,
    ensures
        r == round_scaled(v as int, (num as int, den as int)),
{
    proof {
        lemma_round_scaled_bound(v as int, (num as int, den as int));
        assert(0 <= (v as int) * (num as int) <= 0xffff_ffff * 0xffff_ffff) by (nonlinear_arith)
            requires
                0 <= v <= 0xffff_ffff,
                0 <= num <= 0xffff_ffff,
        ;
    }
    let prod: u128 = (v as u128) * (num as u128);
    let top: u128 = 2 * prod + (den as u128);
    proof {
        assert(2 * (v as int) * (num as int) == 2 * ((v as int) * (num as int))) by (nonlinear_arith);
        assert(top as int == 2 * (v as int) * (num as int) + den as int);
    }
    let r = top / (2 * (den as u128));
    r as u32
}

/// `orig_w × orig_h` scaled to fit inside `box_w × box_h`, never enlarged; the
/// scale and the rounding are computed exactly.
fn fit_within(orig_w: u32, orig_h: u32, box_w: u32, box_h: u32) -> (r: (u32, u32))
    ensures
        (r.0 as int, r.1 as int) == spec_fit_within(orig_w, orig_h, box_w, box_h),
{
    let ghost s = fit_scale(orig_w as int, orig_h as int, box_w as int, box_h as int);
    let (mut num, mut den): (u32, u32) = (1, 1);
    if orig_w > 0 && box_w <= orig_w {
        num = box_w;
        den = orig_w;
    }
    let ghost num1 = num;
    let ghost den1 = den;
    proof {
        assert(0 <= (box_h as int) * (den as int) <= 0xffff_ffff * 0xffff_ffff) by (nonlinear_arith)
            requires
                0 <= box_h <= 0xffff_ffff,
                0 <= den <= 0xffff_ffff,
        ;
        assert(0 <= (num as int) * (orig_h as int) <= 0xffff_ffff * 0xffff_ffff) by (nonlinear_arith)
            requires
                0 <= num <= 0xffff_ffff,
                0 <= orig_h <= 0xffff_ffff,
        ;
    }
    let lhs: u64 = (box_h as u64) * (den as u64);
    let rhs: u64 = (num as u64) * (orig_h as u64);
    if orig_h > 0 && lhs <= rhs {
        proof {
            assert(box_h as int <= orig_h as int) by (nonlinear_arith)
                requires
                    box_h as int * den1 as int <= num1 as int * orig_h as int,
                    num1 <= den1,
                    den1 > 0,
                    orig_h > 0,
            ;
        }
        num = box_h;
        den = orig_h;
    }
    proof {
        assert(num as int == s.0 && den as int == s.1);
    }
    (round_scaled_exec(orig_w, num, den), round_scaled_exec(orig_h, num, den))
}

/// Estimate the output pixel dimensions for a given image size and resize params.
/// Returns (out_w, out_h). Scales are exact fractions and halves round up (see
/// `round_scaled`), so no float rounding error enters.
pub fn estimate_output_size(orig_w: u32, orig_h: u32, resize: &ResizeMode) -> (r: (u32, u32))
    ensures
        (r.0 as int, r.1 as int) == spec_estimate_output_size(orig_w, orig_h, *resize),
{
    match resize {
        ResizeMode::Unchanged => (orig_w, orig_h),
        ResizeMode::Half => (orig_w / 2, orig_h / 2),
        ResizeMode::Fixed { width, height } => {
            let (target_w, target_h) = orientation_aware_target(orig_w, orig_h, *width, *height);
            fit_within(orig_w, orig_h, target_w, target_h)
        },
    }
}

/// `v` as a `u32`, saturating at `u32::MAX` (as a float-to-integer cast does).
pub open spec fn saturate(v: int) -> int {
    if v > u32::MAX {
        u32::MAX as int
    } else {
        v
    }
}

/// Size that covers the box `box_w × box_h` (may enlarge): the greatest of
/// `box_w / orig_w` and `box_h / orig_h`, computed as a float would: a positive
/// number over zero is infinite (an infinite scale turns a zero side into 0 and any
/// other side into `u32::MAX`), zero over zero takes no part (both taking no part
/// gives 0 × 0); results saturate at `u32::MAX`.
pub open spec fn spec_cover_size(orig_w: u32, orig_h: u32, box_w: u32, box_h: u32) -> (int, int) {
    let inf_w = orig_w == 0 && box_w > 0;
    let inf_h = orig_h == 0 && box_h > 0;
    let undefined_w = orig_w == 0 && box_w == 0;
    let undefined_h = orig_h == 0 && box_h == 0;
    if inf_w || inf_h {
        (
            if orig_w == 0 { 0 } else { u32::MAX as int },
            if orig_h == 0 { 0 } else { u32::MAX as int },
        )
    } else if undefined_w && undefined_h {
        (0, 0)
    } else {
        let s = if undefined_w {
            (box_h as int, orig_h as int)
        } else if undefined_h {
            (box_w as int, orig_w as int)
        } else if ratio_le((box_w as int, orig_w as int), (box_h as int, orig_h as int)) {
            (box_h as int, orig_h as int)
        } else {
            (box_w as int, orig_w as int)
        };
        (saturate(round_scaled(orig_w as int, s)), saturate(round_scaled(orig_h as int, s)))
    }
}

/// Target size of the legacy width/height/fit parameters: `"exact"` takes the
/// given sides (missing ones kept), `"cover"` scales to cover the box (missing
/// sides kept), anything else scales to fit inside the box (missing sides
/// unbounded) without enlarging.
pub open spec fn spec_legacy_size(
    orig_w: u32,
    orig_h: u32,
    width: Option<u32>,
    height: Option<u32>,
    fit: Seq<char>,
) -> (int, int) {
    if fit == "exact"@ {
        (width.unwrap_or(orig_w) as int, height.unwrap_or(orig_h) as int)
    } else if fit == "cover"@ {
        spec_cover_size(orig_w, orig_h, width.unwrap_or(orig_w), height.unwrap_or(orig_h))
    } else {
        spec_fit_within(orig_w, orig_h, width.unwrap_or(u32::MAX), height.unwrap_or(u32::MAX))
    }
}

/// `v × num / den` rounded half up, computed exactly.
fn round_scaled_wide(v: u32, num: u32, den: u32) -> (r: u128)
    requires
        den > 0,
    ensures
        r == round_scaled(v as int, (num as int, den as int)),
{
    proof {
        assert(0 <= (v as int) * (num as int) <= 0xffff_ffff * 0xffff_ffff) by (nonlinear_arith)
            requires
                0 <= v <= 0xffff_ffff,
                0 <= num <= 0xffff_ffff,
        ;
        assert(2 * (v as int) * (num as int) == 2 * ((v as int) * (num as int))) by (nonlinear_arith);
    }
    let prod: u128 = (v as u128) * (num as u128);
    let top: u128 = 2 * prod + (den as u128);
    top / (2 * (den as u128))
}

/// `v` as a `u32`, saturating at `u32::MAX`.
fn saturate_u32(v: u128) -> (r: u32)
    ensures
        r == saturate(v as int),
{
    if v > u32::MAX as u128 {
        u32::MAX
    } else {
        v as u32
    }
}

/// Size that covers the box `box_w × box_h`.
fn cover_size(orig_w: u32, orig_h: u32, box_w: u32, box_h: u32) -> (r: (u32, u32))
    ensures
        (r.0 as int, r.1 as int) == spec_cover_size(orig_w, orig_h, box_w, box_h),
{
    let inf_w = orig_w == 0 && box_w > 0;
    let inf_h = orig_h == 0 && box_h > 0;
    let undefined_w = orig_w == 0 && box_w == 0;
    let undefined_h = orig_h == 0 && box_h == 0;
    if inf_w || inf_h {
        (if orig_w == 0 { 0 } else { u32::MAX }, if orig_h == 0 { 0 } else { u32::MAX })
    } else if undefined_w && undefined_h {
        (0, 0)
    } else {
        proof {
            assert(0 <= (box_w as int) * (orig_h as int) <= 0xffff_ffff * 0xffff_ffff) by (nonlinear_arith)
                requires
                    0 <= box_w <= 0xffff_ffff,
                    0 <= orig_h <= 0xffff_ffff,
            ;
            assert(0 <= (box_h as int) * (orig_w as int) <= 0xffff_ffff * 0xffff_ffff) by (nonlinear_arith)
                requires
                    0 <= box_h <= 0xffff_ffff,
                    0 <= orig_w <= 0xffff_ffff,
            ;
        }
        let (num, den): (u32, u32) = if undefined_w {
            (box_h, orig_h)
        } else if undefined_h {
            (box_w, orig_w)
        } else if (box_w as u64) * (orig_h as u64) <= (box_h as u64) * (orig_w as u64) {
            (box_h, orig_h)
        } else {
            (box_w, orig_w)
        };
        (saturate_u32(round_scaled_wide(orig_w, num, den)), saturate_u32(round_scaled_wide(orig_h, num, den)))
    }
}

/// Target size of the legacy width/height/fit parameters, with exact scales and
/// rounding (see `round_scaled`).
pub fn compute_legacy_size(
    orig_w: u32,
    orig_h: u32,
    width: Option<u32>,
    height: Option<u32>,
    fit: &str,
) -> (r: (u32, u32))
    ensures
        (r.0 as int, r.1 as int) == spec_legacy_size(orig_w, orig_h, width, height, fit@),
        fit@ == "exact"@ ==> r == (width.unwrap_or(orig_w), height.unwrap_or(orig_h)),
        fit@ != "exact"@ && fit@ != "cover"@ ==> {
            &&& r.0 <= orig_w
            &&& r.1 <= orig_h
            &&& (width matches Some(w) ==> r.0 <= w)
            &&& (height matches Some(h) ==> r.1 <= h)
        },
        fit@ != "exact"@ && fit@ != "cover"@ && orig_w > 0 && orig_h > 0 ==> (r == (orig_w, orig_h) || r.0
            == width.unwrap_or(u32::MAX) || r.1 == height.unwrap_or(u32::MAX)),
        fit@ == "cover"@ && orig_w > 0 && orig_h > 0 ==> r.0 >= width.unwrap_or(orig_w) && r.1 >= height.unwrap_or(
            orig_h,
        ),
{
    proof {
        lemma_legacy_contain_fits_box(orig_w, orig_h, width, height, fit@);
        if orig_w > 0 && orig_h > 0 {
            lemma_fit_within_is_tight(orig_w, orig_h, width.unwrap_or(u32::MAX), height.unwrap_or(u32::MAX));
            lemma_cover_covers_box(orig_w, orig_h, width, height);
        }
    }
    if text_eq(fit, "exact") {
        (
            match width {
                Some(w) => w,
                None => orig_w,
            },
            match height {
                Some(h) => h,
                None => orig_h,
            },
        )
    } else if text_eq(fit, "cover") {
        let tw = match width {
            Some(w) => w,
            None => orig_w,
        };
        let th = match height {
            Some(h) => h,
            None => orig_h,
        };
        cover_size(orig_w, orig_h, tw, th)
    } else {
        let tw = match width {
            Some(w) => w,
            None => u32::MAX,
        };
        let th = match height {
            Some(h) => h,
            None => u32::MAX,
        };
        fit_within(orig_w, orig_h, tw, th)
    }
}

/// Encoding of a processed image.
#[derive(Debug, Clone, Copy, PartialEq, Eq)]
pub enum OutputFormat {
    Jpeg,
    Webp,
}

/// Pixel size to resize to.
#[derive(Debug, Clone, Copy, PartialEq, Eq)]
pub struct ResizeTarget {
    pub width: u32,
    pub height: u32,
}

/// What processing does to an image: the resize (if any), the encoding and its quality.
#[derive(Debug, Clone, Copy, PartialEq, Eq)]
pub struct ProcessPlan {
    pub resize: Option<ResizeTarget>,
    pub format: OutputFormat,
    pub quality: u8,
}

/// Size the parameters ask for, before zero sizes are dropped: `Unchanged` uses
/// the legacy fields when either side is given (fit defaulting to `"contain"`);
/// `Half` halves both sides; `Fixed` fits the turned box and asks for nothing when
/// that keeps the size.
pub open spec fn spec_resize_target(orig_w: u32, orig_h: u32, params: ProcessParams) -> Option<(int, int)> {
    match params.resize {
        ResizeMode::Unchanged => if params.width is Some || params.height is Some {
            let fit = match params.fit {
                Some(f) => f@,
                None => "contain"@,
            };
            Some(spec_legacy_size(orig_w, orig_h, params.width, params.height, fit))
        } else {
            None
        },
        ResizeMode::Half => Some((orig_w as int / 2, orig_h as int / 2)),
        ResizeMode::Fixed { .. } => {
            let e = spec_estimate_output_size(orig_w, orig_h, params.resize);
            if e.0 == orig_w && e.1 == orig_h {
                None
            } else {
                Some(e)
            }
        },
    }
}

/// The plan of `process_image` for an image of `orig_w × orig_h`: resize when the
/// requested size has no zero side; encode as WebP when the target format (or else
/// `default_format`) is `"webp"`, as JPEG otherwise; quality defaults to 85.
pub open spec fn spec_process_plan(
    orig_w: u32,
    orig_h: u32,
    params: ProcessParams,
    default_format: Seq<char>,
) -> ProcessPlan {
    let format = match params.target_format {
        Some(f) => f@,
        None => default_format,
    };
    ProcessPlan {
        resize: match spec_resize_target(orig_w, orig_h, params) {
            Some(t) => if t.0 > 0 && t.1 > 0 {
                Some(ResizeTarget { width: t.0 as u32, height: t.1 as u32 })
            } else {
                None
            },
            None => None,
        },
        format: if format == "webp"@ {
            OutputFormat::Webp
        } else {
            OutputFormat::Jpeg
        },
        quality: params.quality.unwrap_or(85),
    }
}

/// Decides how `process_image` treats an image of `orig_w × orig_h`.
pub fn plan_processing(orig_w: u32, orig_h: u32, params: &ProcessParams, default_format: &str) -> (plan:
    ProcessPlan)
    ensures
        plan == spec_process_plan(orig_w, orig_h, *params, default_format@),
        plan.quality == match params.quality {
            Some(q) => q,
            None => 85u8,
        },
        (plan.format == OutputFormat::Webp) == (match params.target_format {
            Some(f) => f@,
            None => default_format@,
        } == "webp"@),
{
    proof {
        lemma_plan_keeps_quality_and_format(orig_w, orig_h, *params, default_format@);
    }
    let target: Option<(u32, u32)> = match params.resize {
        ResizeMode::Unchanged => {
            if params.width.is_some() || params.height.is_some() {
                let fit: &str = match &params.fit {
                    Some(f) => f.as_str(),
                    None => "contain",
                };
                Some(compute_legacy_size(orig_w, orig_h, params.width, params.height, fit))
            } else {
                None
            }
        },
        ResizeMode::Half => Some((orig_w / 2, orig_h / 2)),
        ResizeMode::Fixed { .. } => {
            let (new_w, new_h) = estimate_output_size(orig_w, orig_h, &params.resize);
            if new_w == orig_w && new_h == orig_h {
                None
            } else {
                Some((new_w, new_h))
            }
        },
    };
    let resize = match target {
        Some((w, h)) => if w > 0 && h > 0 {
            Some(ResizeTarget { width: w, height: h })
        } else {
            None
        },
        None => None,
    };
    let format_name: &str = match &params.target_format {
        Some(f) => f.as_str(),
        None => default_format,
    };
    let format = if text_eq(format_name, "webp") {
        OutputFormat::Webp
    } else {
        OutputFormat::Jpeg
    };
    let quality = match params.quality {
        Some(q) => q,
        None => 85,
    };
    ProcessPlan { resize, format, quality }
}

/// The bytes that processing writes for an image with `plan`: JPEG or WebP, after the
/// planned resize.
pub open spec fn spec_plan_output(data: Seq<u8>, ext: Seq<char>, plan: ProcessPlan) -> Option<Seq<u8>> {
    match plan.format {
        OutputFormat::Jpeg => spec_encoded_jpeg(data, ext, plan.resize, plan.quality),
        OutputFormat::Webp => spec_encoded_webp(data, ext, plan.resize, plan.quality),
    }
}

/// Extension of the files written in a format.
pub open spec fn format_extension(f: OutputFormat) -> Seq<char> {
    match f {
        OutputFormat::Jpeg => "jpeg"@,
        OutputFormat::Webp => "webp"@,
    }
}

/// Processes the image in `data` (a file with extension `ext`, which names its
/// format): decodes it, resizes and re-encodes it as `plan_processing` decides, and
/// returns `(encoded_bytes, extension, out_width, out_height)`; `None` when the image
/// cannot be decoded or encoded.
pub fn process_image(data: &[u8], ext: &str, params: &ProcessParams, default_format: &str) -> (r: Option<
    (Vec<u8>, String, u32, u32),
>)
    ensures
        match spec_image_size(data@, ext@) {
            None => r is None,
            Some((w, h)) => {
                let plan = spec_process_plan(w, h, *params, default_format@);
                let out = planned_output_size(w, h, plan);
                match spec_plan_output(data@, ext@, plan) {
                    None => r is None,
                    Some(b) => r matches Some((bytes, e, ow, oh)) && bytes@ == b && e@ == format_extension(plan.format)
                        && ow == out.0 && oh == out.1,
                }
            },
        },
{
    let (w, h) = match decoded_size(data, ext) {
        Some(size) => size,
        None => return None,
    };
    let plan = plan_processing(w, h, params, default_format);
    let (out_w, out_h) = match plan.resize {
        Some(t) => (t.width, t.height),
        None => (w, h),
    };
    match plan.format {
        OutputFormat::Webp => match encode_webp(data, ext, plan.resize, plan.quality) {
            Some(bytes) => Some((bytes, String::from_str("webp"), out_w, out_h)),
            None => None,
        },
        OutputFormat::Jpeg => match encode_jpeg(data, ext, plan.resize, plan.quality) {
            Some(bytes) => Some((bytes, String::from_str("jpeg"), out_w, out_h)),
            None => None,
        },
    }
}

/// Pixel size of the processed image.
pub open spec fn planned_output_size(orig_w: u32, orig_h: u32, plan: ProcessPlan) -> (int, int) {
    match plan.resize {
        Some(t) => (t.width as int, t.height as int),
        None => (orig_w as int, orig_h as int),
    }
}

/// `estimate_output_size` gives the size that processing produces, whenever the
/// legacy fields are not in use and the estimate has no zero side.
pub proof fn lemma_estimate_matches_processing(
    orig_w: u32,
    orig_h: u32,
    params: ProcessParams,
    default_format: Seq<char>,
)
    requires
        params.resize != ResizeMode::Unchanged || (params.width is None && params.height is None),
        spec_estimate_output_size(orig_w, orig_h, params.resize).0 > 0,
        spec_estimate_output_size(orig_w, orig_h, params.resize).1 > 0,
    ensures
        planned_output_size(orig_w, orig_h, spec_process_plan(orig_w, orig_h, params, default_format))
            == spec_estimate_output_size(orig_w, orig_h, params.resize),
{
    match params.resize {
        ResizeMode::Fixed { width, height } => {
            let t = spec_orientation_aware_target(orig_w, orig_h, width, height);
            let s = fit_scale(orig_w as int, orig_h as int, t.0 as int, t.1 as int);
            assert(s.1 > 0 && 0 <= s.0 <= s.1) by {
                if orig_w > 0 && ratio_le((t.0 as int, orig_w as int), (1, 1)) {
                }
                if orig_h > 0 {
                    let s1 = if orig_w > 0 && ratio_le((t.0 as int, orig_w as int), (1, 1)) {
                        (t.0 as int, orig_w as int)
                    } else {
                        (1int, 1int)
                    };
                    if ratio_le((t.1 as int, orig_h as int), s1) {
                        assert(t.1 as int <= orig_h as int) by (nonlinear_arith)
                            requires
                                t.1 as int * s1.1 <= s1.0 * orig_h as int,
                                s1.0 <= s1.1,
                                s1.1 > 0,
                                orig_h > 0,
                        ;
                    }
                }
            }
            lemma_round_scaled_bound(orig_w as int, s);
            lemma_round_scaled_bound(orig_h as int, s);
        },
        _ => {},
    }
}

proof fn lemma_round_scaled_at_most(v: int, s: (int, int), b: int)
    requires
        v >= 0,
        s.0 >= 0,
        s.1 > 0,
        b >= 0,
        v * s.0 <= b * s.1,
    ensures
        round_scaled(v, s) <= b,
{
    assert((2 * v * s.0 + s.1) / (2 * s.1) <= b) by (nonlinear_arith)
        requires
            v * s.0 <= b * s.1,
            s.1 > 0,
            b >= 0,
    ;
}

/// Fitting never enlarges and stays inside the box: both sides of the result are at
/// most the original's and at most the box's.
pub proof fn lemma_fit_within_fits(orig_w: u32, orig_h: u32, box_w: u32, box_h: u32)
    ensures
        ({
            let e = spec_fit_within(orig_w, orig_h, box_w, box_h);
            &&& 0 <= e.0 <= orig_w
            &&& 0 <= e.1 <= orig_h
            &&& e.0 <= box_w
            &&& e.1 <= box_h
        }),
{
    let (ow, oh, bw, bh) = (orig_w as int, orig_h as int, box_w as int, box_h as int);
    let s1 = if ow > 0 && ratio_le((bw, ow), (1, 1)) {
        (bw, ow)
    } else {
        (1int, 1int)
    };
    let s = fit_scale(ow, oh, bw, bh);
    assert(s1.1 > 0 && 0 <= s1.0 <= s1.1);
    if oh > 0 && ratio_le((bh, oh), s1) {
        assert(bh <= oh) by (nonlinear_arith)
            requires
                bh * s1.1 <= s1.0 * oh,
                s1.0 <= s1.1,
                s1.1 > 0,
                oh > 0,
        ;
    }
    assert(s.1 > 0 && 0 <= s.0 <= s.1);
    lemma_round_scaled_bound(ow, s);
    lemma_round_scaled_bound(oh, s);
    // the width fits
    if ow > 0 {
        if ratio_le((bw, ow), (1, 1)) {
            if s == s1 {
                assert(ow * bw <= bw * ow) by (nonlinear_arith);
            } else {
                assert(ow * bh <= bw * oh) by (nonlinear_arith)
                    requires
                        bh * ow <= bw * oh,
                ;
            }
        } else {
            assert(bw > ow);
            if s == s1 {
                assert(ow * 1 <= bw * 1);
            } else {
                assert(ow * bh <= bw * oh) by (nonlinear_arith)
                    requires
                        bh * 1 <= 1 * oh,
                        ow < bw,
                        bh >= 0,
                        ow >= 0,
                ;
            }
        }
        lemma_round_scaled_at_most(ow, s, bw);
    } else {
        assert(ow * s.0 <= bw * s.1) by (nonlinear_arith)
            requires
                ow == 0,
                bw >= 0,
                s.1 > 0,
        ;
        lemma_round_scaled_at_most(ow, s, bw);
    }
    // the height fits
    if oh > 0 && ratio_le((bh, oh), s1) {
        assert(oh * bh <= bh * oh) by (nonlinear_arith);
        lemma_round_scaled_at_most(oh, s, bh);
    } else if oh > 0 {
        assert(oh * s1.0 <= bh * s1.1) by (nonlinear_arith)
            requires
                !(bh * s1.1 <= s1.0 * oh),
        ;
        lemma_round_scaled_at_most(oh, s, bh);
    } else {
        assert(oh * s.0 <= bh * s.1) by (nonlinear_arith)
            requires
                oh == 0,
                bh >= 0,
                s.1 > 0,
        ;
        lemma_round_scaled_at_most(oh, s, bh);
    }
}

/// A `Fixed` resize never enlarges an image and fits it inside the box, the box
/// being turned to the image's orientation (one side portrait, the other not) when
/// it is not square; a non-empty image keeps its size or reaches one side of the box.
pub proof fn lemma_fixed_fits_box(orig_w: u32, orig_h: u32, width: u32, height: u32)
    ensures
        ({
            let e = spec_estimate_output_size(orig_w, orig_h, ResizeMode::Fixed { width, height });
            let t = spec_orientation_aware_target(orig_w, orig_h, width, height);
            &&& 0 <= e.0 <= orig_w
            &&& 0 <= e.1 <= orig_h
            &&& e.0 <= t.0
            &&& e.1 <= t.1
            &&& width != height ==> ((t.1 > t.0) <==> (orig_h > orig_w))
            &&& orig_w > 0 && orig_h > 0 ==> (e == (orig_w as int, orig_h as int) || e.0 == t.0 || e.1 == t.1)
        }),
{
    let t = spec_orientation_aware_target(orig_w, orig_h, width, height);
    lemma_fit_within_fits(orig_w, orig_h, t.0, t.1);
    if orig_w > 0 && orig_h > 0 {
        lemma_fit_within_is_tight(orig_w, orig_h, t.0, t.1);
    }
}

/// Integer quotients of two equal fractions are equal.
proof fn lemma_div_same_fraction(a1: int, b1: int, a2: int, b2: int)
    requires
        b1 > 0,
        b2 > 0,
        a1 * b2 == a2 * b1,
    ensures
        a1 / b1 == a2 / b2,
{
    let q = a1 / b1;
    let r = a1 % b1;
    vstd::arithmetic::div_mod::lemma_fundamental_div_mod(a1, b1);
    assert(0 <= r < b1) by {
        vstd::arithmetic::div_mod::lemma_mod_bound(a1, b1);
    }
    assert(a1 == b1 * q + r);
    assert((a2 - q * b2) * b1 == r * b2) by (nonlinear_arith)
        requires
            a1 * b2 == a2 * b1,
            a1 == b1 * q + r,
    ;
    assert(0 <= a2 - q * b2 < b2) by (nonlinear_arith)
        requires
            (a2 - q * b2) * b1 == r * b2,
            0 <= r < b1,
            b1 > 0,
            b2 > 0,
    ;
    vstd::arithmetic::div_mod::lemma_fundamental_div_mod_converse(a2, b2, q, a2 - q * b2);
}

/// Rounding a scaled value depends on the scale's value only, not on how the
/// fraction is written.
proof fn lemma_round_scaled_same_value(v: int, a: (int, int), b: (int, int))
    requires
        a.1 > 0,
        b.1 > 0,
        a.0 * b.1 == b.0 * a.1,
    ensures
        round_scaled(v, a) == round_scaled(v, b),
{
    assert((2 * v * a.0 + a.1) * (2 * b.1) == (2 * v * b.0 + b.1) * (2 * a.1)) by (nonlinear_arith)
        requires
            a.0 * b.1 == b.0 * a.1,
    ;
    lemma_div_same_fraction(2 * v * a.0 + a.1, 2 * a.1, 2 * v * b.0 + b.1, 2 * b.1);
}

/// `a <= b <= c` as fractions with positive denominators gives `a <= c`.
proof fn lemma_ratio_le_trans(a: (int, int), b: (int, int), c: (int, int))
    requires
        a.1 > 0,
        b.1 > 0,
        c.1 > 0,
        ratio_le(a, b),
        ratio_le(b, c),
    ensures
        ratio_le(a, c),
{
    assert(a.0 * c.1 <= c.0 * a.1) by (nonlinear_arith)
        requires
            a.0 * b.1 <= b.0 * a.1,
            b.0 * c.1 <= c.0 * b.1,
            a.1 > 0,
            b.1 > 0,
            c.1 > 0,
    ;
}

/// For a non-empty image, the fitting scale is the least of `box_w / orig_w`,
/// `box_h / orig_h` and 1.
proof fn lemma_fit_scale_is_least(ow: int, oh: int, bw: int, bh: int)
    requires
        ow > 0,
        oh > 0,
        bw >= 0,
        bh >= 0,
    ensures
        ({
            let s = fit_scale(ow, oh, bw, bh);
            &&& s.1 > 0
            &&& ratio_le(s, (bw, ow))
            &&& ratio_le(s, (bh, oh))
            &&& ratio_le(s, (1, 1))
            &&& (s == (bw, ow) || s == (bh, oh) || s == (1int, 1int))
        }),
{
    let s1 = if ratio_le((bw, ow), (1, 1)) {
        (bw, ow)
    } else {
        (1int, 1int)
    };
    assert(ratio_le(s1, (bw, ow)) && ratio_le(s1, (1, 1)));
    if ratio_le((bh, oh), s1) {
        lemma_ratio_le_trans((bh, oh), s1, (bw, ow));
        lemma_ratio_le_trans((bh, oh), s1, (1, 1));
        assert(bh * oh <= bh * oh);
    } else {
        assert(ratio_le(s1, (bh, oh)));
    }
}

/// Turning an image and its box a quarter turns the estimated size too: the
/// estimate for `orig_h × orig_w` with the box's sides swapped is the estimate for
/// `orig_w × orig_h`, sides swapped.
pub proof fn lemma_estimate_transposes(orig_w: u32, orig_h: u32, resize: ResizeMode)
    requires
        orig_w > 0,
        orig_h > 0,
    ensures
        ({
            let turned = match resize {
                ResizeMode::Fixed { width, height } => ResizeMode::Fixed { width: height, height: width },
                other => other,
            };
            let e = spec_estimate_output_size(orig_w, orig_h, resize);
            spec_estimate_output_size(orig_h, orig_w, turned) == (e.1, e.0)
        }),
{
    match resize {
        ResizeMode::Fixed { width, height } => {
            let (ow, oh) = (orig_w as int, orig_h as int);
            let t = spec_orientation_aware_target(orig_w, orig_h, width, height);
            let u = spec_orientation_aware_target(orig_h, orig_w, height, width);
            let s = fit_scale(ow, oh, t.0 as int, t.1 as int);
            let s2 = fit_scale(oh, ow, u.0 as int, u.1 as int);
            lemma_fit_scale_is_least(ow, oh, t.0 as int, t.1 as int);
            lemma_fit_scale_is_least(oh, ow, u.0 as int, u.1 as int);
            // each candidate of one scale is a candidate of the other
            if u == (t.1, t.0) {
            } else {
                assert(ow == oh);
            }
            assert(ratio_le(s, s2));
            assert(ratio_le(s2, s));
            assert(s.0 * s2.1 == s2.0 * s.1);
            lemma_round_scaled_same_value(ow, s, s2);
            lemma_round_scaled_same_value(oh, s, s2);
        },
        _ => {},
    }
}

/// The legacy sizes: `"exact"` takes the given sides (missing ones kept); any fit
/// other than `"exact"` and `"cover"` fits the image inside the given box (a
/// missing side does not bound) and never enlarges it.
pub proof fn lemma_legacy_contain_fits_box(
    orig_w: u32,
    orig_h: u32,
    width: Option<u32>,
    height: Option<u32>,
    fit: Seq<char>,
)
    ensures
        fit == "exact"@ ==> spec_legacy_size(orig_w, orig_h, width, height, fit) == (
            width.unwrap_or(orig_w) as int,
            height.unwrap_or(orig_h) as int,
        ),
        fit != "exact"@ && fit != "cover"@ ==> {
            let e = spec_legacy_size(orig_w, orig_h, width, height, fit);
            &&& 0 <= e.0 <= orig_w
            &&& 0 <= e.1 <= orig_h
            &&& (width matches Some(w) ==> e.0 <= w)
            &&& (height matches Some(h) ==> e.1 <= h)
        },
{
    lemma_fit_within_fits(orig_w, orig_h, width.unwrap_or(u32::MAX), height.unwrap_or(u32::MAX));
}

/// Processing encodes at the requested quality whatever the format, 85 when none is
/// requested, and as WebP exactly when the target format (or, lacking one, the
/// default format) is `"webp"`.
pub proof fn lemma_plan_keeps_quality_and_format(
    orig_w: u32,
    orig_h: u32,
    params: ProcessParams,
    default_format: Seq<char>,
)
    ensures
        spec_process_plan(orig_w, orig_h, params, default_format).quality == match params.quality {
            Some(q) => q,
            None => 85u8,
        },
        (spec_process_plan(orig_w, orig_h, params, default_format).format == OutputFormat::Webp) == (
        match params.target_format {
            Some(f) => f@,
            None => default_format,
        } == "webp"@),
{
}

proof fn lemma_round_scaled_at_least(v: int, s: (int, int), b: int)
    requires
        s.1 > 0,
        v * s.0 >= b * s.1,
    ensures
        round_scaled(v, s) >= b,
{
    assert((2 * v * s.0 + s.1) / (2 * s.1) >= b) by (nonlinear_arith)
        requires
            v * s.0 >= b * s.1,
            s.1 > 0,
    ;
}

proof fn lemma_round_scaled_exact(v: int, b: int)
    requires
        v > 0,
    ensures
        round_scaled(v, (b, v)) == b,
{
    assert(v * b >= b * v && v * b <= b * v) by (nonlinear_arith);
    lemma_round_scaled_at_least(v, (b, v), b);
    assert((2 * v * b + v) / (2 * v) <= b) by (nonlinear_arith)
        requires
            v > 0,
    ;
}

/// Fitting a non-empty image shrinks it no more than needed: the result is the
/// original size, or one of its sides equals the box's.
pub proof fn lemma_fit_within_is_tight(orig_w: u32, orig_h: u32, box_w: u32, box_h: u32)
    requires
        orig_w > 0,
        orig_h > 0,
    ensures
        ({
            let e = spec_fit_within(orig_w, orig_h, box_w, box_h);
            e == (orig_w as int, orig_h as int) || e.0 == box_w || e.1 == box_h
        }),
{
    let (ow, oh, bw, bh) = (orig_w as int, orig_h as int, box_w as int, box_h as int);
    lemma_fit_scale_is_least(ow, oh, bw, bh);
    let s = fit_scale(ow, oh, bw, bh);
    if s == (bw, ow) {
        lemma_round_scaled_exact(ow, bw);
    } else if s == (bh, oh) {
        lemma_round_scaled_exact(oh, bh);
    } else {
        lemma_round_scaled_exact(ow, ow);
        lemma_round_scaled_exact(oh, oh);
        assert(round_scaled(ow, (1, 1)) == round_scaled(ow, (ow, ow))) by {
            lemma_round_scaled_same_value(ow, (1, 1), (ow, ow));
        }
        assert(round_scaled(oh, (1, 1)) == round_scaled(oh, (oh, oh))) by {
            lemma_round_scaled_same_value(oh, (1, 1), (oh, oh));
        }
    }
}

/// The `"cover"` size of a non-empty image covers the box: each side is at least
/// the box's (a missing side of the box is the image's own).
pub proof fn lemma_cover_covers_box(orig_w: u32, orig_h: u32, width: Option<u32>, height: Option<u32>)
    requires
        orig_w > 0,
        orig_h > 0,
    ensures
        ({
            let e = spec_legacy_size(orig_w, orig_h, width, height, "cover"@);
            &&& e.0 >= width.unwrap_or(orig_w)
            &&& e.1 >= height.unwrap_or(orig_h)
        }),
{
    let (ow, oh) = (orig_w as int, orig_h as int);
    let (bw, bh) = (width.unwrap_or(orig_w) as int, height.unwrap_or(orig_h) as int);
    reveal_strlit("cover");
    reveal_strlit("exact");
    assert("cover"@[0] != "exact"@[0]);
    if ratio_le((bw, ow), (bh, oh)) {
        lemma_round_scaled_exact(oh, bh);
        assert(ow * bh >= bw * oh);
        lemma_round_scaled_at_least(ow, (bh, oh), bw);
    } else {
        lemma_round_scaled_exact(ow, bw);
        assert(oh * bw >= bh * ow) by (nonlinear_arith)
            requires
                !(bw * oh <= bh * ow),
        ;
        lemma_round_scaled_at_least(oh, (bw, ow), bh);
    }
}

} // verus!
