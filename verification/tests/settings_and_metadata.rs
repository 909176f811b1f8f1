use gallery_organizer::scanner::exif::{extract, fallback_mtime, ExifData, RawExif};
use gallery_organizer::scanner::{image_record, is_image_extension, needs_size_probe, progress_due};
use gallery_organizer::settings::{merge_settings, settings_entries, settings_from_stored, AppSettings, JsonValue, SettingsPatch, StoredSettings};

fn empty_store() -> StoredSettings {
    StoredSettings {
        output_mode: None,
        output_dir: None,
        default_quality: None,
        default_format: None,
        duplicate_hash_distance: None,
        date_group_granularity: None,
        thumbnail_size_px: None,
        scan_recursive: None,
        processing_threads: None,
    }
}

fn empty_patch() -> SettingsPatch {
    SettingsPatch {
        output_mode: None,
        output_dir: None,
        default_quality: None,
        default_format: None,
        duplicate_hash_distance: None,
        date_group_granularity: None,
        thumbnail_size_px: None,
        scan_recursive: None,
        processing_threads: None,
    }
}

#[test]
fn default_settings() {
    let s = AppSettings::default();
    assert_eq!(s.output_mode, "output_folder");
    assert_eq!(s.output_dir, None);
    assert_eq!(s.default_quality, 85);
    assert_eq!(s.default_format, "jpeg");
    assert_eq!(s.duplicate_hash_distance, 8);
    assert_eq!(s.date_group_granularity, "day");
    assert_eq!(s.thumbnail_size_px, 256);
    assert!(s.scan_recursive);
    assert_eq!(s.processing_threads, 0);
}

#[test]
fn empty_store_loads_defaults() {
    assert_eq!(settings_from_stored(&empty_store()), AppSettings::default());
}

#[test]
fn stored_values_are_parsed() {
    let mut st = empty_store();
    st.output_mode = Some("\"in_place\"".to_string());
    st.output_dir = Some("\"/out\"".to_string());
    st.default_quality = Some("70".to_string());
    st.scan_recursive = Some("false".to_string());
    st.duplicate_hash_distance = Some("12".to_string());
    let s = settings_from_stored(&st);
    assert_eq!(s.output_mode, "in_place");
    assert_eq!(s.output_dir, Some("/out".to_string()));
    assert_eq!(s.default_quality, 70);
    assert!(!s.scan_recursive);
    assert_eq!(s.duplicate_hash_distance, 12);
}

#[test]
fn unparsable_values_keep_defaults() {
    let mut st = empty_store();
    st.default_quality = Some("300".to_string());
    st.default_format = Some("jpeg".to_string());
    st.thumbnail_size_px = Some("-5".to_string());
    st.output_dir = Some("null".to_string());
    st.processing_threads = Some("2.5".to_string());
    assert_eq!(settings_from_stored(&st), AppSettings::default());
}

#[test]
fn saved_entries_round_trip() {
    let mut s = AppSettings::default();
    s.output_dir = Some("/x".to_string());
    s.default_quality = 42;
    let entries = settings_entries(&s);
    assert_eq!(entries.len(), 9);
    assert_eq!(entries[0].key, "output_mode");
    assert_eq!(entries[0].value_json, "\"output_folder\"");
    assert_eq!(entries[1].value_json, "\"/x\"");
    assert_eq!(entries[2].value_json, "42");
    assert_eq!(entries[7].key, "scan_recursive");
    assert_eq!(entries[7].value_json, "true");
    let mut st = empty_store();
    st.output_mode = Some(entries[0].value_json.clone());
    st.output_dir = Some(entries[1].value_json.clone());
    st.default_quality = Some(entries[2].value_json.clone());
    st.default_format = Some(entries[3].value_json.clone());
    st.duplicate_hash_distance = Some(entries[4].value_json.clone());
    st.date_group_granularity = Some(entries[5].value_json.clone());
    st.thumbnail_size_px = Some(entries[6].value_json.clone());
    st.scan_recursive = Some(entries[7].value_json.clone());
    st.processing_threads = Some(entries[8].value_json.clone());
    assert_eq!(settings_from_stored(&st), s);
}

#[test]
fn empty_patch_changes_nothing() {
    let s = AppSettings::default();
    assert_eq!(merge_settings(&s, &empty_patch()), s);
}

#[test]
fn patch_merges_given_fields() {
    let s = AppSettings::default();
    let mut p = empty_patch();
    p.default_quality = Some(JsonValue::UInt(150));
    p.output_dir = Some(JsonValue::Text("/dest".to_string()));
    p.thumbnail_size_px = Some(JsonValue::UInt(0x1_0000_0010));
    p.scan_recursive = Some(JsonValue::Bool(false));
    p.output_mode = Some(JsonValue::UInt(3));
    let m = merge_settings(&s, &p);
    assert_eq!(m.default_quality, 100);
    assert_eq!(m.output_dir, Some("/dest".to_string()));
    assert_eq!(m.thumbnail_size_px, 16);
    assert!(!m.scan_recursive);
    assert_eq!(m.output_mode, "output_folder");
    let mut p2 = empty_patch();
    p2.output_dir = Some(JsonValue::Null);
    assert_eq!(merge_settings(&m, &p2).output_dir, None);
}

fn raw(date: Option<&str>) -> RawExif {
    RawExif {
        date_time_original: date.map(|d| d.as_bytes().to_vec()),
        make: Some("  Canon ".to_string()),
        model: Some("EOS R5\n".to_string()),
        width: Some(8192),
        height: None,
    }
}

#[test]
fn exif_date_is_used() {
    let d = extract(Some(raw(Some("2021:03:04 10:00:00"))), Some(5));
    assert_eq!(d.taken_at, Some(1614852000));
    assert_eq!(d.taken_at_source, "exif");
    assert_eq!(d.camera_make, Some("Canon".to_string()));
    assert_eq!(d.camera_model, Some("EOS R5".to_string()));
    assert_eq!(d.width_px, Some(8192));
    assert_eq!(d.height_px, None);
}

#[test]
fn bad_exif_date_falls_back_to_mtime() {
    let d = extract(Some(raw(Some("yesterday"))), Some(1234));
    assert_eq!(d.taken_at, Some(1234));
    assert_eq!(d.taken_at_source, "file_mtime");
    assert_eq!(d.camera_make, Some("Canon".to_string()));
}

#[test]
fn unreadable_exif_falls_back_to_mtime() {
    let d = extract(None, Some(99));
    assert_eq!(d.taken_at, Some(99));
    assert_eq!(d.taken_at_source, "file_mtime");
    assert_eq!(d.camera_make, None);
    let d = extract(None, None);
    assert_eq!(d.taken_at, None);
    assert_eq!(d.taken_at_source, "none");
}

#[test]
fn invalid_utf8_date_is_ignored() {
    let mut r = raw(None);
    r.date_time_original = Some(vec![0xff, 0xfe]);
    let d = extract(Some(r), None);
    assert_eq!(d.taken_at, None);
    assert_eq!(d.taken_at_source, "none");
}

#[test]
fn mtime_fallback_keeps_other_fields() {
    let d = ExifData {
        taken_at: None,
        taken_at_source: "none".to_string(),
        camera_make: Some("X".to_string()),
        camera_model: None,
        width_px: Some(1),
        height_px: Some(2),
    };
    let r = fallback_mtime(d, Some(7));
    assert_eq!(r.taken_at, Some(7));
    assert_eq!(r.taken_at_source, "file_mtime");
    assert_eq!(r.camera_make, Some("X".to_string()));
}

#[test]
fn image_extensions() {
    assert!(is_image_extension("jpg"));
    assert!(is_image_extension("JPEG"));
    assert!(is_image_extension("HeIc"));
    assert!(is_image_extension("tif"));
    assert!(!is_image_extension("gif"));
    assert!(!is_image_extension("txt"));
    assert!(!is_image_extension(""));
}

#[test]
fn record_takes_exif_or_probed_size() {
    let exif = ExifData {
        taken_at: Some(1),
        taken_at_source: "exif".to_string(),
        camera_make: None,
        camera_model: None,
        width_px: Some(10),
        height_px: None,
    };
    assert!(needs_size_probe(&exif));
    let r = image_record("/a/B.JPG".into(), "B.JPG".into(), 5, Some("JPG".into()), exif.clone(), Some((640, 480)), None);
    assert_eq!((r.width_px, r.height_px), (Some(640), Some(480)));
    assert_eq!(r.format, Some("jpg".to_string()));
    let mut both = exif.clone();
    both.height_px = Some(20);
    assert!(!needs_size_probe(&both));
    let r = image_record("/a/b".into(), "b".into(), 5, None, both, Some((640, 480)), Some("ff".into()));
    assert_eq!((r.width_px, r.height_px), (Some(10), Some(20)));
    assert_eq!(r.format, None);
    assert_eq!(r.perceptual_hash, Some("ff".to_string()));
    let r = image_record("/a/c".into(), "c".into(), 5, None, exif, None, None);
    assert_eq!((r.width_px, r.height_px), (None, None));
}

#[test]
fn progress_reporting() {
    let d = progress_due(200, 0);
    assert!(d.emit && !d.reset_clock);
    let d = progress_due(201, 150);
    assert!(d.emit && d.reset_clock);
    let d = progress_due(202, 99);
    assert!(!d.emit && !d.reset_clock);
}

#[test]
fn saved_entries_round_trip_with_escapes_and_extremes() {
    let s = AppSettings {
        output_mode: "in_place".to_string(),
        output_dir: Some("C:\\photos \"out\"\n\u{1}é".to_string()),
        default_quality: 255,
        default_format: "webp".to_string(),
        duplicate_hash_distance: u32::MAX,
        date_group_granularity: "".to_string(),
        thumbnail_size_px: 0,
        scan_recursive: false,
        processing_threads: 7,
    };
    let entries = settings_entries(&s);
    let st = StoredSettings {
        output_mode: Some(entries[0].value_json.clone()),
        output_dir: Some(entries[1].value_json.clone()),
        default_quality: Some(entries[2].value_json.clone()),
        default_format: Some(entries[3].value_json.clone()),
        duplicate_hash_distance: Some(entries[4].value_json.clone()),
        date_group_granularity: Some(entries[5].value_json.clone()),
        thumbnail_size_px: Some(entries[6].value_json.clone()),
        scan_recursive: Some(entries[7].value_json.clone()),
        processing_threads: Some(entries[8].value_json.clone()),
    };
    assert_eq!(settings_from_stored(&st), s);
    let mut cleared = s.clone();
    cleared.output_dir = None;
    let entries = settings_entries(&cleared);
    assert_eq!(entries[1].value_json, "null");
    let mut st2 = st.clone();
    st2.output_dir = Some(entries[1].value_json.clone());
    assert_eq!(settings_from_stored(&st2), cleared);
}

#[test]
fn make_and_model_lose_unicode_white_space_at_both_ends_only() {
    let mut r = raw(None);
    r.make = Some("\u{3000}\u{a0}Nikon Z\u{2009}6\u{85}\t".to_string());
    r.model = Some("\u{200b}X\u{200b}".to_string());
    let d = extract(Some(r), None);
    assert_eq!(d.camera_make, Some("Nikon Z\u{2009}6".to_string()));
    // U+200B is not white space, so it stays.
    assert_eq!(d.camera_model, Some("\u{200b}X\u{200b}".to_string()));
}
