use exif::{Field, In, Tag, Value};
use gallery_organizer::commands::images::thumbnail_jpeg;
use gallery_organizer::processor::compress::{estimate_output_size, process_image, ProcessParams, ResizeMode};
use gallery_organizer::scanner::exif::extract_from_bytes;
use gallery_organizer::scanner::hash::{compute, compute_from_image, decode_jpeg_fast};
use gallery_organizer::scanner::probe_size;

fn encoded(img: image::DynamicImage, format: image::ImageFormat) -> Vec<u8> {
    let mut out = std::io::Cursor::new(Vec::new());
    img.write_to(&mut out, format).unwrap();
    out.into_inner()
}

fn gradient_png(w: u32, h: u32) -> Vec<u8> {
    let img = image::RgbImage::from_fn(w, h, |x, y| image::Rgb([(x * 7) as u8, (y * 13) as u8, ((x + y) * 3) as u8]));
    encoded(image::DynamicImage::ImageRgb8(img), image::ImageFormat::Png)
}

fn gradient_jpeg(w: u32, h: u32) -> Vec<u8> {
    let img = image::RgbImage::from_fn(w, h, |x, y| image::Rgb([(x * 5) as u8, (y * 9) as u8, 128]));
    encoded(image::DynamicImage::ImageRgb8(img), image::ImageFormat::Jpeg)
}

fn params(resize: ResizeMode, fmt: Option<&str>) -> ProcessParams {
    ProcessParams { quality: None, width: None, height: None, fit: None, target_format: fmt.map(|s| s.to_string()), resize }
}

fn size_of(bytes: &[u8]) -> (u32, u32) {
    let img = image::load_from_memory(bytes).unwrap();
    (img.width(), img.height())
}

#[test]
fn processing_halves_and_encodes_jpeg() {
    let png = gradient_png(40, 20);
    let (data, ext, w, h) = process_image(&png, "png", &params(ResizeMode::Half, None), "jpeg").unwrap();
    assert_eq!((ext.as_str(), w, h), ("jpeg", 20, 10));
    assert_eq!(size_of(&data), (20, 10));
    assert_eq!(&data[..2], &[0xff, 0xd8]);
}

#[test]
fn processing_to_webp_keeps_size_when_unchanged() {
    let png = gradient_png(30, 12);
    let (data, ext, w, h) = process_image(&png, "PNG", &params(ResizeMode::Unchanged, Some("webp")), "jpeg").unwrap();
    assert_eq!((ext.as_str(), w, h), ("webp", 30, 12));
    assert_eq!(&data[..4], b"RIFF");
    assert_eq!(size_of(&data), (30, 12));
}

#[test]
fn processing_fixed_box_matches_the_estimate() {
    let png = gradient_png(64, 48);
    let mode = ResizeMode::Fixed { width: 32, height: 32 };
    let (data, _, w, h) = process_image(&png, "png", &params(mode, None), "jpeg").unwrap();
    assert_eq!((w, h), estimate_output_size(64, 48, &mode));
    assert_eq!(size_of(&data), (w, h));
}

#[test]
fn processing_fails_on_undecodable_data() {
    assert!(process_image(b"not an image", "png", &params(ResizeMode::Half, None), "jpeg").is_none());
    // The extension names the format, as when opening a file by its path.
    assert!(process_image(&gradient_png(4, 4), "jpg", &params(ResizeMode::Half, None), "jpeg").is_none());
    assert!(process_image(&gradient_png(4, 4), "", &params(ResizeMode::Half, None), "jpeg").is_none());
}

#[test]
fn thumbnails_fit_the_square() {
    let thumb = thumbnail_jpeg(&gradient_png(100, 50), "png", 20).unwrap();
    assert_eq!(size_of(&thumb), (20, 10));
    assert!(thumbnail_jpeg(b"xx", "png", 20).is_none());
}

#[test]
fn jpeg_fast_path_reads_size_and_hash() {
    let jpeg = gradient_jpeg(48, 32);
    let (w, h, hash) = decode_jpeg_fast(&jpeg);
    assert_eq!((w, h), (Some(48), Some(32)));
    let hash = hash.unwrap();
    assert_eq!(hash.len(), 16);
    assert!(hash.chars().all(|c| c.is_ascii_hexdigit() && !c.is_ascii_uppercase()));
    assert_eq!(compute(&jpeg, "JPG"), Some(hash));
    assert_eq!(decode_jpeg_fast(b"no jpeg here"), (None, None, None));
}

#[test]
fn other_formats_are_hashed_through_grey_pixels() {
    let hash = compute(&gradient_png(40, 30), "png").unwrap();
    assert_eq!(hash.len(), 16);
    assert_eq!(compute(b"garbage", "png"), None);
    assert_eq!(compute(&gradient_png(4, 4), "bmp-ish"), None);
}

#[test]
fn hashing_grey_pixels() {
    let pixels: Vec<u8> = (0..64u32).map(|i| (i * 4) as u8).collect();
    let hash = compute_from_image(8, 8, &pixels).unwrap();
    assert_eq!(hash.len(), 16);
    assert_eq!(compute_from_image(8, 8, &pixels[..10]), None);
    let flat = vec![100u8; 64];
    assert_eq!(compute_from_image(8, 8, &flat), Some("0000000000000000".to_string()));
}

#[test]
fn header_sizes_are_probed() {
    assert_eq!(probe_size(&gradient_png(7, 3), "png"), Some((7, 3)));
    assert_eq!(probe_size(b"nothing", "png"), None);
}

#[test]
fn metadata_from_bytes() {
    let fields = [
        Field { tag: Tag::DateTimeOriginal, ifd_num: In::PRIMARY, value: Value::Ascii(vec![b"2021:03:04 10:00:00".to_vec()]) },
        Field { tag: Tag::Make, ifd_num: In::PRIMARY, value: Value::Ascii(vec![b" Canon ".to_vec()]) },
        Field { tag: Tag::ImageWidth, ifd_num: In::PRIMARY, value: Value::Long(vec![640]) },
        Field { tag: Tag::ImageLength, ifd_num: In::PRIMARY, value: Value::Short(vec![480]) },
    ];
    let mut writer = exif::experimental::Writer::new();
    for f in &fields {
        writer.push_field(f);
    }
    let mut tiff = std::io::Cursor::new(Vec::new());
    writer.write(&mut tiff, false).unwrap();
    let data = extract_from_bytes(&Some(tiff.into_inner()), Some(5));
    assert_eq!(data.taken_at, Some(1614852000));
    assert_eq!(data.taken_at_source, "exif");
    // Make is read as kamadak-exif displays it: an ASCII value keeps its quotes.
    assert_eq!(data.camera_make.as_deref(), Some("\" Canon \""));
    assert_eq!(data.camera_model, None);
    assert_eq!((data.width_px, data.height_px), (Some(640), Some(480)));

    let plain = extract_from_bytes(&Some(gradient_png(4, 4)), Some(77));
    assert_eq!((plain.taken_at, plain.taken_at_source.as_str()), (Some(77), "file_mtime"));
    let unread = extract_from_bytes(&None, None);
    assert_eq!((unread.taken_at, unread.taken_at_source.as_str()), (None, "none"));
}

#[test]
fn turning_image_and_box_turns_the_estimate() {
    for (w, h, bw, bh) in [(4000, 3000, 1920, 1080), (100, 100, 50, 20), (10, 45, 7, 1000000), (3, 7, 2, 5)] {
        let a = estimate_output_size(w, h, &ResizeMode::Fixed { width: bw, height: bh });
        let b = estimate_output_size(h, w, &ResizeMode::Fixed { width: bh, height: bw });
        assert_eq!(b, (a.1, a.0));
    }
}
