use gallery_organizer::processor::compress::{
    compute_legacy_size, estimate_output_size, orientation_aware_target, plan_processing, OutputFormat,
    ProcessParams, ResizeMode, ResizeTarget,
};

fn params(resize: ResizeMode) -> ProcessParams {
    ProcessParams { quality: None, width: None, height: None, fit: None, target_format: None, resize }
}

#[test]
fn orientation_swaps_for_portrait() {
    assert_eq!(orientation_aware_target(3000, 4000, 1920, 1080), (1080, 1920));
    assert_eq!(orientation_aware_target(4000, 3000, 1920, 1080), (1920, 1080));
    assert_eq!(orientation_aware_target(4000, 3000, 1080, 1920), (1920, 1080));
    assert_eq!(orientation_aware_target(1000, 1000, 1080, 1920), (1920, 1080));
}

#[test]
fn estimate_none_and_half() {
    assert_eq!(estimate_output_size(4000, 3000, &ResizeMode::Unchanged), (4000, 3000));
    assert_eq!(estimate_output_size(4001, 3001, &ResizeMode::Half), (2000, 1500));
}

#[test]
fn estimate_fixed_fits_box() {
    assert_eq!(estimate_output_size(4000, 3000, &ResizeMode::Fixed { width: 1920, height: 1080 }), (1440, 1080));
    assert_eq!(estimate_output_size(3000, 4000, &ResizeMode::Fixed { width: 1920, height: 1080 }), (1080, 1440));
    assert_eq!(estimate_output_size(4000, 2000, &ResizeMode::Fixed { width: 1000, height: 800 }), (1000, 500));
}

#[test]
fn estimate_fixed_never_upscales() {
    assert_eq!(estimate_output_size(800, 600, &ResizeMode::Fixed { width: 1920, height: 1080 }), (800, 600));
}

#[test]
fn estimate_rounds_half_up() {
    // 3 × 1/2 = 1.5 rounds to 2.
    assert_eq!(estimate_output_size(2, 3, &ResizeMode::Fixed { width: 1, height: 100 }), (1, 2));
}

#[test]
fn estimate_with_zero_sides() {
    assert_eq!(estimate_output_size(0, 0, &ResizeMode::Fixed { width: 10, height: 10 }), (0, 0));
    assert_eq!(estimate_output_size(0, 50, &ResizeMode::Fixed { width: 10, height: 10 }), (0, 10));
}

#[test]
fn legacy_exact() {
    assert_eq!(compute_legacy_size(400, 300, Some(100), None, "exact"), (100, 300));
}

#[test]
fn legacy_cover() {
    assert_eq!(compute_legacy_size(400, 300, Some(200), Some(200), "cover"), (267, 200));
    assert_eq!(compute_legacy_size(400, 300, Some(800), None, "cover"), (800, 600));
}

#[test]
fn legacy_cover_with_zero_side() {
    assert_eq!(compute_legacy_size(0, 300, Some(10), Some(10), "cover"), (0, u32::MAX));
    assert_eq!(compute_legacy_size(0, 0, Some(0), Some(0), "cover"), (0, 0));
}

#[test]
fn legacy_contain_is_default() {
    assert_eq!(compute_legacy_size(400, 300, Some(200), None, "contain"), (200, 150));
    assert_eq!(compute_legacy_size(400, 300, Some(200), None, "anything"), (200, 150));
    assert_eq!(compute_legacy_size(400, 300, Some(800), None, "contain"), (400, 300));
}

#[test]
fn plan_defaults_to_jpeg_quality_85() {
    let plan = plan_processing(400, 300, &params(ResizeMode::Unchanged), "jpeg");
    assert_eq!(plan.resize, None);
    assert_eq!(plan.format, OutputFormat::Jpeg);
    assert_eq!(plan.quality, 85);
}

#[test]
fn plan_uses_default_format_and_target_format() {
    assert_eq!(plan_processing(4, 4, &params(ResizeMode::Unchanged), "webp").format, OutputFormat::Webp);
    let mut p = params(ResizeMode::Unchanged);
    p.target_format = Some("png".to_string());
    p.quality = Some(60);
    let plan = plan_processing(4, 4, &p, "webp");
    assert_eq!(plan.format, OutputFormat::Jpeg);
    assert_eq!(plan.quality, 60);
}

#[test]
fn plan_half_and_fixed() {
    assert_eq!(plan_processing(400, 300, &params(ResizeMode::Half), "jpeg").resize, Some(ResizeTarget { width: 200, height: 150 }));
    assert_eq!(plan_processing(1, 1, &params(ResizeMode::Half), "jpeg").resize, None);
    assert_eq!(
        plan_processing(4000, 3000, &params(ResizeMode::Fixed { width: 1920, height: 1080 }), "jpeg").resize,
        Some(ResizeTarget { width: 1440, height: 1080 })
    );
    assert_eq!(plan_processing(800, 600, &params(ResizeMode::Fixed { width: 1920, height: 1080 }), "jpeg").resize, None);
}

#[test]
fn plan_uses_legacy_fields_when_unchanged() {
    let mut p = params(ResizeMode::Unchanged);
    p.width = Some(200);
    assert_eq!(plan_processing(400, 300, &p, "jpeg").resize, Some(ResizeTarget { width: 200, height: 150 }));
    p.fit = Some("exact".to_string());
    p.height = Some(10);
    assert_eq!(plan_processing(400, 300, &p, "jpeg").resize, Some(ResizeTarget { width: 200, height: 10 }));
}

#[test]
fn default_resize_mode_is_unchanged() {
    assert_eq!(ResizeMode::default(), ResizeMode::Unchanged);
}
