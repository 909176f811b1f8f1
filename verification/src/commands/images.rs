use vstd::prelude::*;
use vstd::string::*;

use crate::db::models::DbImage;
use crate::imaging::{bytes_option, spec_thumbnail_jpeg, thumbnail_jpeg_bytes};
use crate::text::{signed_decimal, spec_signed_decimal, text_eq};

verus! {

/// One page of images and the total number of images.
#[derive(Debug, Clone, PartialEq)]
pub struct PaginatedImages {
    pub items: Vec<DbImage>,
    pub total: i64,
}

/// Paging and sorting of an image listing, after defaults and validation.
#[derive(Debug, Clone, PartialEq)]
pub struct ImageQuery {
    pub page: i64,
    pub page_size: i64,
    pub sort_by: String,
    pub sort_dir: String,
}

/// Sort keys an image listing accepts.
pub open spec fn is_image_sort_key(k: Seq<char>) -> bool {
    k == "file_name"@ || k == "file_size"@ || k == "taken_at"@ || k == "perceptual_hash"@
}

/// The listing parameters with defaults filled in: page 0, 50 images per page at
/// most 200, sorting by capture time ascending; an unknown sort key falls back to
/// capture time, an unknown direction to ascending.
pub fn image_query(
    page: Option<i64>,
    page_size: Option<i64>,
    sort_by: Option<String>,
    sort_dir: Option<String>,
) -> (q: ImageQuery)
    ensures
        q.page == page.unwrap_or(0),
        q.page_size == if page_size.unwrap_or(50) > 200 {
            200
        } else {
            page_size.unwrap_or(50)
        },
        q.sort_by@ == match sort_by {
            Some(k) => if is_image_sort_key(k@) {
                k@
            } else {
                "taken_at"@
            },
            None => "taken_at"@,
        },
        q.sort_dir@ == match sort_dir {
            Some(d) => if d@ == "asc"@ || d@ == "desc"@ {
                d@
            } else {
                "asc"@
            },
            None => "asc"@,
        },
{
    let page = match page {
        Some(p) => p,
        None => 0,
    };
    let size = match page_size {
        Some(s) => s,
        None => 50,
    };
    let page_size = if size > 200 {
        200
    } else {
        size
    };
    let sort_by = match sort_by {
        Some(k) => {
            let s = k.as_str();
            if text_eq(s, "file_name") || text_eq(s, "file_size") || text_eq(s, "taken_at") || text_eq(
                s,
                "perceptual_hash",
            ) {
                k
            } else {
                String::from_str("taken_at")
            }
        },
        None => String::from_str("taken_at"),
    };
    let sort_dir = match sort_dir {
        Some(d) => {
            if text_eq(d.as_str(), "asc") || text_eq(d.as_str(), "desc") {
                d
            } else {
                String::from_str("asc")
            }
        },
        None => String::from_str("asc"),
    };
    ImageQuery { page, page_size, sort_by, sort_dir }
}

/// MIME type for an image format; unknown formats are served as JPEG.
pub open spec fn spec_mime_type(format: Option<Seq<char>>) -> Seq<char> {
    match format {
        Some(f) => if f == "jpg"@ || f == "jpeg"@ {
            "image/jpeg"@
        } else if f == "png"@ {
            "image/png"@
        } else if f == "webp"@ {
            "image/webp"@
        } else if f == "gif"@ {
            "image/gif"@
        } else if f == "tiff"@ || f == "tif"@ {
            "image/tiff"@
        } else if f == "heic"@ || f == "heif"@ {
            "image/heic"@
        } else {
            "image/jpeg"@
        },
        None => "image/jpeg"@,
    }
}

/// MIME type under which an image of the stored format is served.
pub fn mime_type(format: &Option<String>) -> (r: String)
    ensures
        r@ == spec_mime_type(
            match format {
                Some(f) => Some(f@),
                None => None,
            },
        ),
{
    match format {
        Some(f) => {
            let f = f.as_str();
            if text_eq(f, "jpg") || text_eq(f, "jpeg") {
                String::from_str("image/jpeg")
            } else if text_eq(f, "png") {
                String::from_str("image/png")
            } else if text_eq(f, "webp") {
                String::from_str("image/webp")
            } else if text_eq(f, "gif") {
                String::from_str("image/gif")
            } else if text_eq(f, "tiff") || text_eq(f, "tif") {
                String::from_str("image/tiff")
            } else if text_eq(f, "heic") || text_eq(f, "heif") {
                String::from_str("image/heic")
            } else {
                String::from_str("image/jpeg")
            }
        },
        None => String::from_str("image/jpeg"),
    }
}

/// File name of the cached thumbnail of an image: its id and `.jpg`.
pub fn thumbnail_file_name(image_id: i64) -> (r: String)
    ensures
        r@ == spec_signed_decimal(image_id as int) + ".jpg"@,
{
    let mut s = signed_decimal(image_id);
    s.append(".jpg");
    s
}

/// Message for a missing image.
pub fn image_not_found(image_id: i64) -> (r: String)
    ensures
        r@ == "image "@ + spec_signed_decimal(image_id as int) + " not found"@,
{
    let mut s = String::from_str("image ");
    s.append(signed_decimal(image_id).as_str());
    s.append(" not found");
    s
}

/// Character of the standard base64 alphabet for a value below 64.
pub open spec fn base64_char(v: int) -> char {
    if v < 26 {
        (65 + v) as char
    } else if v < 52 {
        (71 + v) as char
    } else if v < 62 {
        (v - 4) as char
    } else if v == 62 {
        '+'
    } else {
        '/'
    }
}

/// Standard base64 (the RFC 4648 alphabet, padded with `=`): every three bytes
/// become four characters, six bits each, high bits first; a final one or two bytes
/// become two or three characters followed by `==` or `=`.
pub open spec fn spec_base64(b: Seq<u8>) -> Seq<char>
    decreases b.len(),
{
    if b.len() == 0 {
        Seq::empty()
    } else if b.len() == 1 {
        let x = b[0] as int;
        seq![base64_char(x / 4), base64_char((x % 4) * 16), '=', '=']
    } else if b.len() == 2 {
        let (x, y) = (b[0] as int, b[1] as int);
        seq![base64_char(x / 4), base64_char((x % 4) * 16 + y / 16), base64_char((y % 16) * 4), '=']
    } else {
        let (x, y, z) = (b[0] as int, b[1] as int, b[2] as int);
        seq![
            base64_char(x / 4),
            base64_char((x % 4) * 16 + y / 16),
            base64_char((y % 16) * 4 + z / 64),
            base64_char(z % 64),
        ] + spec_base64(b.subrange(3, b.len() as int))
    }
}

/// The base64 text of `n` bytes has a length that fits in a `usize`.
pub open spec fn base64_len_fits(n: int) -> bool {
    (n / 3) * 4 + (if n % 3 > 0 { 4int } else { 0int }) <= usize::MAX
}

/// Calls `base64::Engine::encode` with the `STANDARD` engine (standard alphabet,
/// with padding), which panics only when the length of the text overflows `usize`.
#[verifier::external_body]
fn base64_standard(data: &[u8]) -> (r: String)
    requires
        base64_len_fits(data@.len() as int),
    ensures
        r@ == spec_base64(data@),
{
    base64::Engine::encode(&base64::engine::general_purpose::STANDARD, data)
}

/// The text form in which image data is sent to the user interface: standard
/// base64 of its bytes.
pub fn encode_image_data(data: &[u8]) -> (r: String)
    requires
        base64_len_fits(data@.len() as int),
    ensures
        r@ == spec_base64(data@),
{
    base64_standard(data)
}


/// The cached thumbnail of an image file's bytes (`ext` is its extension): the image
/// shrunk to fit `size × size`, as JPEG; `None` when it cannot be decoded or encoded.
pub fn thumbnail_jpeg(data: &[u8], ext: &str, size: u32) -> (r: Option<Vec<u8>>)
    ensures
        bytes_option(r) == spec_thumbnail_jpeg(data@, ext@, size),
{
    thumbnail_jpeg_bytes(data, ext, size)
}

} // verus!
