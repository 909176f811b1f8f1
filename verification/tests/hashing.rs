use gallery_organizer::scanner::hash::{hamming_distance, hash_text};

#[test]
fn identical_hashes_are_at_distance_zero() {
    assert_eq!(hamming_distance("a1b2c3d4e5f60718", "a1b2c3d4e5f60718"), Some(0));
}

#[test]
fn distance_counts_differing_bits() {
    assert_eq!(hamming_distance("00", "ff"), Some(8));
    assert_eq!(hamming_distance("0f", "f0"), Some(8));
    assert_eq!(hamming_distance("01", "03"), Some(1));
    assert_eq!(hamming_distance("0000", "0101"), Some(2));
}

#[test]
fn distance_ignores_case() {
    assert_eq!(hamming_distance("ABCD", "abcd"), Some(0));
}

#[test]
fn distance_is_symmetric() {
    assert_eq!(hamming_distance("12ab", "ff00"), hamming_distance("ff00", "12ab"));
}

#[test]
fn invalid_hex_has_no_distance() {
    assert_eq!(hamming_distance("zz", "00"), None);
    assert_eq!(hamming_distance("00", "0g"), None);
    assert_eq!(hamming_distance("abc", "abc"), None);
}

#[test]
fn different_lengths_have_no_distance() {
    assert_eq!(hamming_distance("00", "0000"), None);
}

#[test]
fn empty_hashes_are_at_distance_zero() {
    assert_eq!(hamming_distance("", ""), Some(0));
}

#[test]
fn hash_text_is_lower_case_hex() {
    assert_eq!(hash_text(&[0xde, 0xad, 0x01]), Some("dead01".to_string()));
    assert_eq!(hash_text(&[]), Some(String::new()));
}

#[test]
fn hash_text_round_trips_through_distance() {
    let a = hash_text(&[0b1010_1010, 0xff]).unwrap();
    let b = hash_text(&[0b0101_0101, 0xff]).unwrap();
    assert_eq!(hamming_distance(&a, &b), Some(8));
}
