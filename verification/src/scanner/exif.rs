use chrono::NaiveDateTime;
use exif::{In, Reader, Tag, Value};
use std::io::Cursor;
use vstd::prelude::*;
use vstd::string::*;
use vstd::utf8::*;

verus! {

/// Metadata read from an image file.
#[derive(Debug, Clone, PartialEq)]
pub struct ExifData {
    pub taken_at: Option<i64>,
    pub taken_at_source: String,
    pub camera_make: Option<String>,
    pub camera_model: Option<String>,
    pub width_px: Option<i64>,
    pub height_px: Option<i64>,
}

/// The EXIF fields as read from a file: the first ASCII value of
/// DateTimeOriginal, the displayed Make and Model, and the first value of
/// ImageWidth and ImageLength when stored as LONG or SHORT.
#[derive(Debug, Clone, PartialEq)]
pub struct RawExif {
    pub date_time_original: Option<Vec<u8>>,
    pub make: Option<String>,
    pub model: Option<String>,
    pub width: Option<u32>,
    pub height: Option<u32>,
}

/// What a `RawExif` holds.
pub struct RawExifView {
    pub date_time_original: Option<Seq<u8>>,
    pub make: Option<Seq<char>>,
    pub model: Option<Seq<char>>,
    pub width: Option<u32>,
    pub height: Option<u32>,
}

impl View for RawExif {
    type V = RawExifView;

    open spec fn view(&self) -> RawExifView {
        RawExifView {
            date_time_original: match self.date_time_original {
                Some(b) => Some(b@),
                None => None,
            },
            make: text_of(self.make),
            model: text_of(self.model),
            width: self.width,
            height: self.height,
        }
    }
}

/// View of optional EXIF fields.
pub open spec fn raw_view(r: Option<RawExif>) -> Option<RawExifView> {
    match r {
        Some(x) => Some(x@),
        None => None,
    }
}

/// The EXIF fields that kamadak-exif reads from a file's bytes (see `RawExif`),
/// `None` when it finds no readable EXIF block.
pub uninterp spec fn spec_exif_fields(bytes: Seq<u8>) -> Option<RawExifView>;

/// The bytes of an optional byte vector.
pub open spec fn byte_text(o: Option<Vec<u8>>) -> Option<Seq<u8>> {
    match o {
        Some(v) => Some(v@),
        None => None,
    }
}

/// Calls `exif::Reader::read_from_container` on the bytes and reads the primary
/// DateTimeOriginal (first ASCII value), Make and Model (`display_value`).
#[verifier::external_body]
fn exif_date_and_texts(bytes: &[u8]) -> (r: Option<(Option<Vec<u8>>, Option<String>, Option<String>)>)
    ensures
        r is Some <==> spec_exif_fields(bytes@) is Some,
        r matches Some((date, make, model)) ==> {
            let f = spec_exif_fields(bytes@)->0;
            byte_text(date) == f.date_time_original && text_of(make) == f.make && text_of(model) == f.model
        },
{
    let exif = Reader::new().read_from_container(&mut Cursor::new(bytes)).ok()?;
    let field = |tag| exif.get_field(tag, In::PRIMARY);
    let text = |tag| field(tag).map(|f| f.display_value().to_string());
    let date = match field(Tag::DateTimeOriginal).map(|f| &f.value) {
        Some(Value::Ascii(v)) => v.first().cloned(),
        _ => None,
    };
    Some((date, text(Tag::Make), text(Tag::Model)))
}

/// Calls `exif::Reader::read_from_container` on the bytes and reads the first
/// LONG or SHORT value of the primary ImageWidth and ImageLength.
#[verifier::external_body]
fn exif_sides(bytes: &[u8]) -> (r: Option<(Option<u32>, Option<u32>)>)
    ensures
        r is Some <==> spec_exif_fields(bytes@) is Some,
        r matches Some((w, h)) ==> w == spec_exif_fields(bytes@)->0.width && h == spec_exif_fields(bytes@)->0.height,
{
    let exif = Reader::new().read_from_container(&mut Cursor::new(bytes)).ok()?;
    let side = |tag| match exif.get_field(tag, In::PRIMARY).map(|f| &f.value) {
        Some(Value::Long(v)) => v.first().copied(),
        Some(Value::Short(v)) => v.first().map(|&x| u32::from(x)),
        _ => None,
    };
    Some((side(Tag::ImageWidth), side(Tag::ImageLength)))
}

/// The EXIF fields of a file's bytes.
fn read_exif_fields(bytes: &[u8]) -> (r: Option<RawExif>)
    ensures
        raw_view(r) == spec_exif_fields(bytes@),
{
    match (exif_date_and_texts(bytes), exif_sides(bytes)) {
        (Some((date, make, model)), Some((width, height))) => {
            let r = RawExif { date_time_original: date, make, model, width, height };
            proof {
                assert(r@ == spec_exif_fields(bytes@)->0);
            }
            Some(r)
        },
        _ => None,
    }
}

/// Seconds since the Unix epoch (UTC) that chrono parses from an EXIF date text
/// `%Y:%m:%d %H:%M:%S`, `None` when the text does not match.
pub uninterp spec fn spec_exif_timestamp(text: Seq<char>) -> Option<i64>;

/// A character with the Unicode White_Space property (PropList.txt), which
/// `char::is_whitespace` tests: U+0009..=U+000D, U+0020, U+0085, U+00A0, U+1680,
/// U+2000..=U+200A, U+2028, U+2029, U+202F, U+205F and U+3000.
pub open spec fn is_white_space(c: char) -> bool {
    let v = c as u32;
    ||| 0x9 <= v <= 0xd
    ||| v == 0x20
    ||| v == 0x85
    ||| v == 0xa0
    ||| v == 0x1680
    ||| 0x2000 <= v <= 0x200a
    ||| v == 0x2028
    ||| v == 0x2029
    ||| v == 0x202f
    ||| v == 0x205f
    ||| v == 0x3000
}

/// The text without its leading white space.
pub open spec fn trimmed_start(text: Seq<char>) -> Seq<char>
    decreases text.len(),
{
    if text.len() > 0 && is_white_space(text[0]) {
        trimmed_start(text.drop_first())
    } else {
        text
    }
}

/// The text without its trailing white space.
pub open spec fn trimmed_end(text: Seq<char>) -> Seq<char>
    decreases text.len(),
{
    if text.len() > 0 && is_white_space(text.last()) {
        trimmed_end(text.drop_last())
    } else {
        text
    }
}

/// The text with leading and trailing white space removed, as `str::trim` does.
pub open spec fn spec_trimmed(text: Seq<char>) -> Seq<char> {
    trimmed_end(trimmed_start(text))
}

/// Calls `NaiveDateTime::parse_from_str(text, "%Y:%m:%d %H:%M:%S")` and takes the
/// timestamp of the result read as UTC.
#[verifier::external_body]
fn parse_exif_timestamp(text: &str) -> (r: Option<i64>)
    ensures
        r == spec_exif_timestamp(text@),
{
    NaiveDateTime::parse_from_str(text, "%Y:%m:%d %H:%M:%S").ok().map(|dt| dt.and_utc().timestamp())
}

/// Calls `str::trim`, which drops leading and trailing characters with the Unicode
/// White_Space property.
#[verifier::external_body]
fn trimmed(text: &str) -> (r: String)
    ensures
        r@ == spec_trimmed(text@),
{
    text.trim().to_string()
}

/// Calls `std::str::from_utf8`, which accepts exactly the valid UTF-8 byte strings.
#[verifier::external_body]
fn utf8_text(bytes: &[u8]) -> (r: Option<String>)
    ensures
        r is Some <==> valid_utf8(bytes@),
        r matches Some(s) ==> s@ == decode_utf8(bytes@),
{
    std::str::from_utf8(bytes).ok().map(|s| s.to_string())
}

/// Capture time read from the DateTimeOriginal bytes.
pub open spec fn exif_taken_at(raw: RawExifView) -> Option<i64> {
    match raw.date_time_original {
        Some(bytes) => if valid_utf8(bytes) {
            spec_exif_timestamp(decode_utf8(bytes))
        } else {
            None
        },
        None => None,
    }
}

/// A trimmed optional text.
pub open spec fn trimmed_text(o: Option<Seq<char>>) -> Option<Seq<char>> {
    match o {
        Some(s) => Some(spec_trimmed(s)),
        None => None,
    }
}

/// View of an optional text.
pub open spec fn text_of(o: Option<String>) -> Option<Seq<char>> {
    match o {
        Some(s) => Some(s@),
        None => None,
    }
}

/// `data` is what extraction gives for the EXIF fields `raw` (`None` when the
/// file or its EXIF block could not be read) and the file's modification time
/// `mtime` (`None` when unavailable): the EXIF capture time with source `"exif"`
/// when it parses; otherwise the modification time with source `"file_mtime"`;
/// otherwise no time with source `"none"`. Make and model are trimmed; sizes are
/// copied.
pub open spec fn extracted(raw: Option<RawExifView>, mtime: Option<i64>, data: ExifData) -> bool {
    let exif_time = match raw {
        Some(r) => exif_taken_at(r),
        None => None,
    };
    &&& match exif_time {
        Some(t) => data.taken_at == Some(t) && data.taken_at_source@ == "exif"@,
        None => match mtime {
            Some(m) => data.taken_at == Some(m) && data.taken_at_source@ == "file_mtime"@,
            None => data.taken_at is None && data.taken_at_source@ == "none"@,
        },
    }
    &&& match raw {
        Some(r) => {
            &&& text_of(data.camera_make) == trimmed_text(r.make)
            &&& text_of(data.camera_model) == trimmed_text(r.model)
            &&& data.width_px == match r.width {
                Some(w) => Some(w as i64),
                None => None::<i64>,
            }
            &&& data.height_px == match r.height {
                Some(h) => Some(h as i64),
                None => None::<i64>,
            }
        },
        None => {
            &&& data.camera_make is None
            &&& data.camera_model is None
            &&& data.width_px is None
            &&& data.height_px is None
        },
    }
}

fn trimmed_opt(o: &Option<String>) -> (r: Option<String>)
    ensures
        text_of(r) == trimmed_text(text_of(*o)),
{
    match o {
        Some(s) => Some(trimmed(s.as_str())),
        None => None,
    }
}

/// Falls back to the file's modification time when no capture time was found.
pub fn fallback_mtime(data: ExifData, mtime: Option<i64>) -> (r: ExifData)
    ensures
        r.camera_make == data.camera_make,
        r.camera_model == data.camera_model,
        r.width_px == data.width_px,
        r.height_px == data.height_px,
        match mtime {
            Some(m) => r.taken_at == Some(m) && r.taken_at_source@ == "file_mtime"@,
            None => r.taken_at == data.taken_at && r.taken_at_source@ == data.taken_at_source@,
        },
{
    match mtime {
        Some(m) => ExifData { taken_at: Some(m), taken_at_source: String::from_str("file_mtime"), ..data },
        None => data,
    }
}

/// The metadata of an image from its EXIF fields and modification time.
pub fn extract(raw: Option<RawExif>, mtime: Option<i64>) -> (data: ExifData)
    ensures
        extracted(raw_view(raw), mtime, data),
{
    let empty = ExifData {
        taken_at: None,
        taken_at_source: String::from_str("none"),
        camera_make: None,
        camera_model: None,
        width_px: None,
        height_px: None,
    };
    let r = match raw {
        Some(r) => r,
        None => {
            return fallback_mtime(empty, mtime);
        },
    };
    let mut taken_at: Option<i64> = None;
    if let Some(bytes) = &r.date_time_original {
        if let Some(text) = utf8_text(bytes.as_slice()) {
            taken_at = parse_exif_timestamp(text.as_str());
        }
    }
    let data = ExifData {
        taken_at,
        taken_at_source: if taken_at.is_some() {
            String::from_str("exif")
        } else {
            String::from_str("none")
        },
        camera_make: trimmed_opt(&r.make),
        camera_model: trimmed_opt(&r.model),
        width_px: match r.width {
            Some(w) => Some(w as i64),
            None => None,
        },
        height_px: match r.height {
            Some(h) => Some(h as i64),
            None => None,
        },
    };
    if taken_at.is_none() {
        return fallback_mtime(data, mtime);
    }
    data
}


/// The EXIF fields of a file's bytes (`None` when the file could not be read).
pub open spec fn file_exif_fields(bytes: Option<Seq<u8>>) -> Option<RawExifView> {
    match bytes {
        Some(b) => spec_exif_fields(b),
        None => None,
    }
}

/// The metadata of an image from its bytes (`None` when the file could not be
/// read) and its modification time.
pub fn extract_from_bytes(bytes: &Option<Vec<u8>>, mtime: Option<i64>) -> (data: ExifData)
    ensures
        extracted(
            file_exif_fields(
                match bytes {
                    Some(b) => Some(b@),
                    None => None,
                },
            ),
            mtime,
            data,
        ),
{
    let raw = match bytes {
        Some(b) => read_exif_fields(b.as_slice()),
        None => None,
    };
    extract(raw, mtime)
}

} // verus!
