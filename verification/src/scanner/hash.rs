use vstd::prelude::*;
use vstd::string::*;
use vstd::utf8::*;

use crate::imaging::{
    decoded_luma, gradient_hash, jpeg_header_size, jpeg_luma, luma_thumbnail, spec_decoded_luma, spec_gradient_hash,
    spec_jpeg_header_size, spec_jpeg_luma, spec_luma_thumbnail,
};
use crate::processor::output::text_option;
use crate::scanner::{lowercase, spec_lowercase};
use crate::text::text_eq;

verus! {

/// Value of one hexadecimal digit given as an ASCII byte (either case).
pub open spec fn hex_digit_value(c: u8) -> Option<int> {
    if 48 <= c <= 57 {
        Some(c - 48)
    } else if 97 <= c <= 102 {
        Some(c - 87)
    } else if 65 <= c <= 70 {
        Some(c - 55)
    } else {
        None
    }
}

/// `b` is a well-formed hex text: an even number of hex digits.
pub open spec fn is_hex_text(b: Seq<u8>) -> bool {
    &&& b.len() % 2 == 0
    &&& forall|i: int| 0 <= i < b.len() ==> (#[trigger] hex_digit_value(b[i])) is Some
}

/// The bytes that a well-formed hex text denotes, high nibble first.
pub open spec fn hex_bytes(b: Seq<u8>) -> Seq<u8> {
    Seq::new(
        b.len() / 2,
        |i: int| (hex_digit_value(b[2 * i])->0 * 16 + hex_digit_value(b[2 * i + 1])->0) as u8,
    )
}

/// Decoding of a hex text, `None` when it has odd length or a non-hex byte.
pub open spec fn spec_hex_decode(b: Seq<u8>) -> Option<Seq<u8>> {
    if is_hex_text(b) {
        Some(hex_bytes(b))
    } else {
        None
    }
}

/// Lower-case hex digit for a value below 16.
pub open spec fn hex_digit_char(v: int) -> char {
    if v < 10 {
        (48 + v) as char
    } else {
        (87 + v) as char
    }
}

/// Lower-case hex text of a byte sequence, two digits per byte, high nibble first.
pub open spec fn spec_hex_encode(b: Seq<u8>) -> Seq<char>
    decreases b.len(),
{
    if b.len() == 0 {
        Seq::empty()
    } else {
        spec_hex_encode(b.drop_last()) + seq![
            hex_digit_char(b.last() as int / 16),
            hex_digit_char(b.last() as int % 16),
        ]
    }
}

/// Number of one bits of a byte.
pub open spec fn popcount(x: u8) -> nat
    decreases x,
{
    if x == 0 {
        0
    } else {
        (x % 2) as nat + popcount(x / 2)
    }
}

/// Number of differing bits in the first `n` bytes of `a` and `b`.
pub open spec fn bit_difference(a: Seq<u8>, b: Seq<u8>, n: int) -> nat
    decreases n,
{
    if n <= 0 {
        0
    } else {
        bit_difference(a, b, n - 1) + popcount(a[n - 1] ^ b[n - 1])
    }
}

/// Hamming distance of two hash texts: both must decode as hex to byte strings of
/// equal length; the distance is the number of differing bits.
pub open spec fn spec_hamming_distance(a: Seq<char>, b: Seq<char>) -> Option<nat> {
    match (spec_hex_decode(encode_utf8(a)), spec_hex_decode(encode_utf8(b))) {
        (Some(x), Some(y)) => if x.len() == y.len() {
            Some(bit_difference(x, y, x.len() as int))
        } else {
            None
        },
        _ => None,
    }
}

/// Calls `hex::decode`, which accepts exactly the texts of even length made of
/// hex digits of either case and returns one byte per digit pair.
#[verifier::external_body]
pub(crate) fn hex_decode(s: &str) -> (r: Option<Vec<u8>>)
    ensures
        r is Some <==> spec_hex_decode(s.spec_bytes()) is Some,
        r matches Some(v) ==> spec_hex_decode(s.spec_bytes()) == Some(v@),
{
    hex::decode(s).ok()
}

/// Calls `hex::encode`, which writes each byte as two lower-case hex digits,
/// high nibble first.
#[verifier::external_body]
fn hex_encode(bytes: &[u8]) -> (r: String)
    ensures
        r@ == spec_hex_encode(bytes@),
{
    hex::encode(bytes)
}

proof fn lemma_popcount_le_8(x: u8)
    ensures
        popcount(x) <= 8,
{
    reveal_with_fuel(popcount, 9);
}

/// The number of one bits of `x`.
fn count_ones(x: u8) -> (c: u32)
    ensures
        c == popcount(x),
        c <= 8,
{
    proof {
        lemma_popcount_le_8(x);
    }
    let mut v = x;
    let mut c: u32 = 0;
    while v > 0
        invariant
            c + popcount(v) == popcount(x),
            popcount(x) <= 8,
        decreases v,
    {
        c = c + (v % 2) as u32;
        v = v / 2;
    }
    c
}

/// Text form of a perceptual hash: its bytes as lower-case hex.
pub fn hash_text(hash_bytes: &[u8]) -> (r: Option<String>)
    ensures
        r matches Some(s) && s@ == spec_hex_encode(hash_bytes@),
{
    Some(hex_encode(hash_bytes))
}

/// The differing bits of the first `k` bytes are no more than those of the first `n`.
proof fn lemma_bit_difference_monotone(a: Seq<u8>, b: Seq<u8>, k: int, n: int)
    requires
        0 <= k <= n,
    ensures
        bit_difference(a, b, k) <= bit_difference(a, b, n),
    decreases n - k,
{
    if k < n {
        lemma_bit_difference_monotone(a, b, k, n - 1);
    }
}

/// At most eight bits differ per byte.
proof fn lemma_bit_difference_at_most(a: Seq<u8>, b: Seq<u8>, n: int)
    requires
        n >= 0,
    ensures
        bit_difference(a, b, n) <= 8 * n,
    decreases n,
{
    if n > 0 {
        lemma_bit_difference_at_most(a, b, n - 1);
        lemma_popcount_le_8(a[n - 1] ^ b[n - 1]);
    }
}

/// A distance between hash texts is at most eight times the decoded length of the first.
pub proof fn lemma_distance_at_most(a: Seq<char>, b: Seq<char>)
    ensures
        spec_hamming_distance(a, b) matches Some(d) ==> (spec_hex_decode(encode_utf8(a)) matches Some(x) && d
            <= 8 * x.len()),
{
    match (spec_hex_decode(encode_utf8(a)), spec_hex_decode(encode_utf8(b))) {
        (Some(x), Some(y)) => {
            lemma_bit_difference_at_most(x, y, x.len() as int);
        },
        _ => {},
    }
}

/// Number of differing bits between two hex-encoded hashes, or `None` when either
/// is not valid hex or their decoded lengths differ. The count is kept in a `u32`,
/// so it must fit there.
pub fn hamming_distance(a: &str, b: &str) -> (r: Option<u32>)
    requires
        spec_hamming_distance(a@, b@) matches Some(d) ==> d <= u32::MAX,
    ensures
        r is Some <==> spec_hamming_distance(a@, b@) is Some,
        r matches Some(d) ==> spec_hamming_distance(a@, b@) == Some(d as nat),
{
    let a_bytes = match hex_decode(a) {
        Some(v) => v,
        None => return None,
    };
    let b_bytes = match hex_decode(b) {
        Some(v) => v,
        None => return None,
    };
    if a_bytes.len() != b_bytes.len() {
        return None;
    }
    let n = a_bytes.len();
    let ghost total = bit_difference(a_bytes@, b_bytes@, n as int);
    let mut dist: u32 = 0;
    let mut k: usize = 0;
    while k < n
        invariant
            n == a_bytes.len(),
            n == b_bytes.len(),
            total == bit_difference(a_bytes@, b_bytes@, n as int),
            total <= u32::MAX,
            k <= n,
            dist == bit_difference(a_bytes@, b_bytes@, k as int),
        decreases n - k,
    {
        let d = count_ones(a_bytes[k] ^ b_bytes[k]);
        proof {
            lemma_bit_difference_monotone(a_bytes@, b_bytes@, k + 1, n as int);
        }
        dist = dist + d;
        k = k + 1;
    }
    Some(dist)
}

proof fn lemma_xor_self_zero(n: int, a: Seq<u8>)
    ensures
        bit_difference(a, a, n) == 0,
    decreases n,
{
    if n > 0 {
        lemma_xor_self_zero(n - 1, a);
        let x = a[n - 1];
        assert(x ^ x == 0) by (bit_vector);
    }
}

/// A hash text that decodes as hex is at distance 0 from itself.
pub proof fn lemma_distance_to_self(a: Seq<char>)
    requires
        spec_hex_decode(encode_utf8(a)) is Some,
    ensures
        spec_hamming_distance(a, a) == Some(0nat),
{
    let x = spec_hex_decode(encode_utf8(a))->0;
    lemma_xor_self_zero(x.len() as int, x);
}

proof fn lemma_hex_encode_shape(b: Seq<u8>)
    ensures
        spec_hex_encode(b).len() == 2 * b.len(),
        forall|k: int|
            0 <= k < b.len() ==> spec_hex_encode(b)[2 * k] == hex_digit_char(b[k] as int / 16)
                && spec_hex_encode(b)[2 * k + 1] == hex_digit_char(b[k] as int % 16),
    decreases b.len(),
{
    if b.len() > 0 {
        let d = b.drop_last();
        lemma_hex_encode_shape(d);
        assert forall|k: int| 0 <= k < d.len() implies d[k] == b[k] by {}
    }
}

/// Hash texts written by `hash_text` always decode, and the distance between two
/// of equal length is the number of bits in which the hashes differ.
pub proof fn lemma_hash_text_distance(b1: Seq<u8>, b2: Seq<u8>)
    requires
        b1.len() == b2.len(),
    ensures
        spec_hex_decode(encode_utf8(spec_hex_encode(b1))) == Some(b1),
        spec_hamming_distance(spec_hex_encode(b1), spec_hex_encode(b2)) == Some(
            bit_difference(b1, b2, b1.len() as int),
        ),
{
    lemma_hex_text_decodes(b1);
    lemma_hex_text_decodes(b2);
}

proof fn lemma_hex_text_decodes(b: Seq<u8>)
    ensures
        spec_hex_decode(encode_utf8(spec_hex_encode(b))) == Some(b),
{
    let t = spec_hex_encode(b);
    lemma_hex_encode_shape(b);
    assert forall|i: int| 0 <= i < t.len() implies '\0' <= #[trigger] t[i] <= '\u{7f}' && hex_digit_value(
        t[i] as u8,
    ) is Some by {
        let k = i / 2;
        assert(i == 2 * k || i == 2 * k + 1);
        let v: int = if i == 2 * k { b[k] as int / 16 } else { b[k] as int % 16 };
        assert(t[i] == hex_digit_char(v));
        assert(0 <= v < 16);
    }
    assert(is_ascii_chars(t));
    is_ascii_chars_encode_utf8(t);
    let e = encode_utf8(t);
    assert forall|i: int| 0 <= i < e.len() implies (#[trigger] hex_digit_value(e[i])) is Some by {
        assert(t[i] as u8 == e[i]);
    }
    assert(is_hex_text(e));
    assert forall|k: int| 0 <= k < b.len() implies #[trigger] hex_bytes(e)[k] == b[k] by {
        assert(t[2 * k] as u8 == e[2 * k]);
        assert(t[2 * k + 1] as u8 == e[2 * k + 1]);
        let hi = b[k] as int / 16;
        let lo = b[k] as int % 16;
        assert(hex_digit_value(e[2 * k]) == Some(hi));
        assert(hex_digit_value(e[2 * k + 1]) == Some(lo));
    }
    assert(hex_bytes(e) =~= b);
}

/// Side of the square that an image is shrunk into before hashing.
pub const HASH_THUMBNAIL_SIDE: u32 = 64;

/// Side, in bits, of the gradient hash.
pub const HASH_SIDE: u32 = 8;

/// Hash text of a `w × h` grey image: the hex text of its gradient hash.
pub open spec fn luma_hash_text(w: u32, h: u32, pixels: Seq<u8>) -> Option<Seq<char>> {
    match spec_gradient_hash(w, h, pixels, HASH_SIDE, HASH_SIDE) {
        Some(b) => Some(spec_hex_encode(b)),
        None => None,
    }
}

/// Hash text of a `w × h` grey image after shrinking it to fit the hashing square.
pub open spec fn thumbnail_hash_text(w: u32, h: u32, pixels: Seq<u8>) -> Option<Seq<char>> {
    match spec_luma_thumbnail(w, h, pixels, HASH_THUMBNAIL_SIDE) {
        Some((tw, th, tp)) => luma_hash_text(tw, th, tp),
        None => None,
    }
}

/// Hash text of an already decoded grey image (avoids a second decode): the hex
/// text of its gradient hash; `None` when `luma` holds fewer than `width × height` bytes.
pub fn compute_from_image(width: u32, height: u32, luma: &[u8]) -> (r: Option<String>)
    ensures
        text_option(r) == luma_hash_text(width, height, luma@),
        r matches Some(s) ==> s@.len() == 16,
{
    match gradient_hash(width, height, luma, HASH_SIDE, HASH_SIDE) {
        Some(bytes) => {
            let r = hash_text(bytes.as_slice());
            proof {
                lemma_hex_encode_shape(bytes@);
            }
            r
        },
        None => None,
    }
}

/// Hash text of a JPEG file decoded in grey with zune-jpeg, given its header size.
pub open spec fn jpeg_hash_text(bytes: Seq<u8>, w: u16, h: u16) -> Option<Seq<char>> {
    match spec_jpeg_luma(bytes) {
        Some(px) => thumbnail_hash_text(w as u32, h as u32, px),
        None => None,
    }
}

/// Decodes a JPEG file with zune-jpeg, directly to grey (hashing does not need
/// colour), and returns (width_px, height_px, perceptual_hash): all `None` when the
/// header cannot be read; the hash `None` when the pixels cannot be decoded.
pub fn decode_jpeg_fast(bytes: &[u8]) -> (r: (Option<i64>, Option<i64>, Option<String>))
    ensures
        match spec_jpeg_header_size(bytes@) {
            None => r.0 is None && r.1 is None && r.2 is None,
            Some((w, h)) => r.0 == Some(w as i64) && r.1 == Some(h as i64) && text_option(r.2)
                == jpeg_hash_text(bytes@, w, h),
        },
        r.2 matches Some(s) ==> s@.len() == 16,
{
    let (w, h) = match jpeg_header_size(bytes) {
        Some(size) => size,
        None => return (None, None, None),
    };
    let hash = match jpeg_luma(bytes) {
        Some(pixels) => match luma_thumbnail(w as u32, h as u32, pixels.as_slice(), HASH_THUMBNAIL_SIDE) {
            Some((tw, th, small)) => compute_from_image(tw, th, small.as_slice()),
            None => None,
        },
        None => None,
    };
    (Some(w as i64), Some(h as i64), hash)
}

/// File extensions (in lower case) of JPEG files.
pub open spec fn is_jpeg_extension(ext: Seq<char>) -> bool {
    ext == "jpg"@ || ext == "jpeg"@
}

/// The perceptual hash text of an image file with extension `ext`: JPEG files take
/// the fast grey decode; other files are decoded by the `image` crate in the format
/// the extension names and converted to grey; either is shrunk and gradient-hashed.
pub open spec fn spec_file_hash(bytes: Seq<u8>, ext: Seq<char>) -> Option<Seq<char>> {
    if is_jpeg_extension(spec_lowercase(ext)) {
        match spec_jpeg_header_size(bytes) {
            Some((w, h)) => jpeg_hash_text(bytes, w, h),
            None => None,
        }
    } else {
        match spec_decoded_luma(bytes, ext) {
            Some((w, h, px)) => thumbnail_hash_text(w, h, px),
            None => None,
        }
    }
}

/// Perceptual hash of an image file's bytes (`ext` is its extension, empty when it has none).
pub fn compute(bytes: &[u8], ext: &str) -> (r: Option<String>)
    ensures
        text_option(r) == spec_file_hash(bytes@, ext@),
        r matches Some(s) ==> s@.len() == 16,
{
    let lower = lowercase(ext);
    if text_eq(lower.as_str(), "jpg") || text_eq(lower.as_str(), "jpeg") {
        return decode_jpeg_fast(bytes).2;
    }
    match decoded_luma(bytes, ext) {
        Some((w, h, pixels)) => match luma_thumbnail(w, h, pixels.as_slice(), HASH_THUMBNAIL_SIDE) {
            Some((tw, th, small)) => compute_from_image(tw, th, small.as_slice()),
            None => None,
        },
        None => None,
    }
}

} // verus!
