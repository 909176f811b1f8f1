pub mod exif;
pub mod hash;

use vstd::prelude::*;
use vstd::string::*;

use crate::db::models::NewImage;
use crate::imaging::{header_dimensions, spec_image_dimensions};
use crate::scanner::exif::ExifData;
use crate::text::text_eq;

verus! {

/// Progress of a scan, as reported to the user interface.
#[derive(Debug, Clone, PartialEq)]
pub struct ScanProgressEvent {
    pub phase: String,
    pub scanned: usize,
    pub total: usize,
    pub current_path: String,
}

/// Outcome of a scan.
#[derive(Debug, Clone, PartialEq)]
pub struct ScanResult {
    pub images_found: usize,
    pub duration_ms: u128,
}

/// The text in lower case, as `str::to_lowercase` gives it.
pub uninterp spec fn spec_lowercase(text: Seq<char>) -> Seq<char>;

/// Calls `str::to_lowercase`.
#[verifier::external_body]
pub(crate) fn lowercase(text: &str) -> (r: String)
    ensures
        r@ == spec_lowercase(text@),
{
    text.to_lowercase()
}

/// File extensions (in lower case) of the images a scan picks up.
pub open spec fn is_image_extension_text(ext: Seq<char>) -> bool {
    ||| ext == "jpg"@
    ||| ext == "jpeg"@
    ||| ext == "png"@
    ||| ext == "webp"@
    ||| ext == "tiff"@
    ||| ext == "tif"@
    ||| ext == "heic"@
    ||| ext == "heif"@
}

/// Whether a file with extension `ext` is an image that a scan picks up; case
/// does not matter.
pub fn is_image_extension(ext: &str) -> (r: bool)
    ensures
        r == is_image_extension_text(spec_lowercase(ext@)),
{
    let lower = lowercase(ext);
    let e = lower.as_str();
    text_eq(e, "jpg") || text_eq(e, "jpeg") || text_eq(e, "png") || text_eq(e, "webp") || text_eq(e, "tiff")
        || text_eq(e, "tif") || text_eq(e, "heic") || text_eq(e, "heif")
}

/// Whether the image size must be read from the file: EXIF does not give both sides.
pub fn needs_size_probe(exif: &ExifData) -> (r: bool)
    ensures
        r == !(exif.width_px is Some && exif.height_px is Some),
{
    !(exif.width_px.is_some() && exif.height_px.is_some())
}

/// The database record of a scanned file: sizes come from EXIF when it gives both,
/// otherwise from `probed` (the size read from the image itself, `None` when that
/// failed); the format is the extension in lower case.
pub fn image_record(
    file_path: String,
    file_name: String,
    file_size_bytes: i64,
    extension: Option<String>,
    exif: ExifData,
    probed: Option<(u32, u32)>,
    perceptual_hash: Option<String>,
) -> (r: NewImage)
    ensures
        r.file_path == file_path,
        r.file_name == file_name,
        r.file_size_bytes == file_size_bytes,
        (r.width_px, r.height_px) == if exif.width_px is Some && exif.height_px is Some {
            (exif.width_px, exif.height_px)
        } else {
            match probed {
                Some((w, h)) => (Some(w as i64), Some(h as i64)),
                None => (None, None),
            }
        },
        match extension {
            Some(e) => r.format matches Some(f) && f@ == spec_lowercase(e@),
            None => r.format is None,
        },
        r.taken_at == exif.taken_at,
        r.taken_at_source == exif.taken_at_source,
        r.camera_make == exif.camera_make,
        r.camera_model == exif.camera_model,
        r.perceptual_hash == perceptual_hash,
{
    let (width_px, height_px) = if exif.width_px.is_some() && exif.height_px.is_some() {
        (exif.width_px, exif.height_px)
    } else {
        match probed {
            Some((w, h)) => (Some(w as i64), Some(h as i64)),
            None => (None, None),
        }
    };
    let format = match &extension {
        Some(e) => Some(lowercase(e.as_str())),
        None => None,
    };
    NewImage {
        file_path,
        file_name,
        file_size_bytes,
        width_px,
        height_px,
        format,
        taken_at: exif.taken_at,
        taken_at_source: exif.taken_at_source,
        camera_make: exif.camera_make,
        camera_model: exif.camera_model,
        perceptual_hash,
    }
}

/// Whether to report progress after `done` images: every hundredth image, or when
/// at least 100 ms passed since the last timed report. `reset_clock` tells whether
/// the report restarts that clock (only a timed report does).
#[derive(Debug, Clone, Copy, PartialEq, Eq)]
pub struct ProgressDecision {
    pub emit: bool,
    pub reset_clock: bool,
}

/// Decides whether to report scan progress.
pub fn progress_due(done: usize, millis_since_last: u128) -> (d: ProgressDecision)
    ensures
        d.emit == (done % 100 == 0 || millis_since_last >= 100),
        d.reset_clock == (done % 100 != 0 && millis_since_last >= 100),
{
    if done % 100 == 0 {
        ProgressDecision { emit: true, reset_clock: false }
    } else if millis_since_last >= 100 {
        ProgressDecision { emit: true, reset_clock: true }
    } else {
        ProgressDecision { emit: false, reset_clock: false }
    }
}


/// Size of an image read from the header of its file's bytes (`ext` is the file's
/// extension, which names the format), for files whose EXIF block gives none.
pub fn probe_size(bytes: &[u8], ext: &str) -> (r: Option<(u32, u32)>)
    ensures
        r == spec_image_dimensions(bytes@, ext@),
{
    header_dimensions(bytes, ext)
}

} // verus!
