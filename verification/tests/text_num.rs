use ratings_scraper::num::{i32_to_dec, normalize_rating, parse_i32};
use ratings_scraper::text::{contains_bytes, find_byte_from, join_bytes, split_bytes, trim_bytes};

#[test]
fn contains_finds_marker() {
    let hay = b"<html><h1>Not Found</h1></html>".to_vec();
    let needle = b"<h1>Not Found</h1>".to_vec();
    assert!(contains_bytes(&hay, &needle));
}

#[test]
fn contains_rejects_absent_marker() {
    let hay = b"<html><h1>Found</h1></html>".to_vec();
    let needle = b"<h1>Not Found</h1>".to_vec();
    assert!(!contains_bytes(&hay, &needle));
}

#[test]
fn contains_empty_needle() {
    let hay = b"abc".to_vec();
    let needle = Vec::new();
    assert!(contains_bytes(&hay, &needle));
}

#[test]
fn find_byte_first_occurrence() {
    let s = b"a,b,c".to_vec();
    assert_eq!(find_byte_from(&s, b',', 0), Some(1));
    assert_eq!(find_byte_from(&s, b',', 2), Some(3));
    assert_eq!(find_byte_from(&s, b',', 4), None);
}

#[test]
fn trim_removes_ascii_whitespace() {
    let s = b" \t\n 7 \r\n".to_vec();
    assert_eq!(trim_bytes(&s), b"7".to_vec());
    let empty = b" \t ".to_vec();
    assert_eq!(trim_bytes(&empty), Vec::<u8>::new());
    let untouched = b"abc".to_vec();
    assert_eq!(trim_bytes(&untouched), b"abc".to_vec());
}

#[test]
fn join_and_split() {
    let parts = vec![b"Dir A".to_vec(), b"Dir B".to_vec()];
    assert_eq!(join_bytes(&parts, b','), b"Dir A,Dir B".to_vec());
    let empty: Vec<Vec<u8>> = Vec::new();
    assert_eq!(join_bytes(&empty, b','), Vec::<u8>::new());
    let joined = b"Dir A,Dir B".to_vec();
    assert_eq!(split_bytes(&joined, b','), parts);
}

#[test]
fn parse_i32_accepts_plain_and_signed() {
    assert_eq!(parse_i32(&b"7".to_vec()), Some(7));
    assert_eq!(parse_i32(&b"+7".to_vec()), Some(7));
    assert_eq!(parse_i32(&b"-7".to_vec()), Some(-7));
    assert_eq!(parse_i32(&b"007".to_vec()), Some(7));
    assert_eq!(parse_i32(&b"2147483647".to_vec()), Some(2147483647));
    assert_eq!(parse_i32(&b"-2147483648".to_vec()), Some(i32::MIN));
}

#[test]
fn parse_i32_rejects_garbage_and_overflow() {
    assert_eq!(parse_i32(&b"".to_vec()), None);
    assert_eq!(parse_i32(&b"-".to_vec()), None);
    assert_eq!(parse_i32(&b"7.5".to_vec()), None);
    assert_eq!(parse_i32(&b"abc".to_vec()), None);
    assert_eq!(parse_i32(&b" 7".to_vec()), None);
    assert_eq!(parse_i32(&b"2147483648".to_vec()), None);
    assert_eq!(parse_i32(&b"-2147483649".to_vec()), None);
    assert_eq!(parse_i32(&b"99999999999999999999".to_vec()), None);
}

#[test]
fn i32_to_dec_renders_canonically() {
    assert_eq!(i32_to_dec(0), b"0".to_vec());
    assert_eq!(i32_to_dec(7), b"7".to_vec());
    assert_eq!(i32_to_dec(-42), b"-42".to_vec());
    assert_eq!(i32_to_dec(i32::MIN), b"-2147483648".to_vec());
    assert_eq!(i32_to_dec(i32::MAX), b"2147483647".to_vec());
}

#[test]
fn normalize_rating_trims_and_canonicalises() {
    assert_eq!(normalize_rating(&b" 7 ".to_vec()), b"7".to_vec());
    assert_eq!(normalize_rating(&b"\n10\t".to_vec()), b"10".to_vec());
    assert_eq!(normalize_rating(&b"007".to_vec()), b"7".to_vec());
}

#[test]
fn normalize_rating_swallows_unparsable() {
    assert_eq!(normalize_rating(&b"n/a".to_vec()), Vec::<u8>::new());
    assert_eq!(normalize_rating(&b"".to_vec()), Vec::<u8>::new());
    assert_eq!(normalize_rating(&b"7.5".to_vec()), Vec::<u8>::new());
}
