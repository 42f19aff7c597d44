//! Flavors, text helpers, provenance metadata and filename derivation.

use rthumb::flavor::ThumbFlavor;
use rthumb::meta::{ThumbFsMeta, ThumbFullMeta};
use rthumb::provenance::{format_mtime, parse_mtime, parse_provenance, provenance_chunks};
use rthumb::text::{hex_to_string, parse_u64_decimal, u64_to_string};
use rthumb::{destination_filename, temp_filename};

#[test]
fn flavor_dimensions() {
    assert_eq!(ThumbFlavor::Normal.dimension(), 128);
    assert_eq!(ThumbFlavor::Large.dimension(), 256);
    assert_eq!(ThumbFlavor::XLarge.dimension(), 512);
    assert_eq!(ThumbFlavor::XXLarge.dimension(), 1024);
}

#[test]
fn flavor_names_round_trip() {
    for flavor in ThumbFlavor::all() {
        let name = flavor.name_str();
        let back = ThumbFlavor::from_name(name).unwrap();
        assert_eq!(back.dimension(), flavor.dimension());
    }
    assert_eq!(ThumbFlavor::Normal.name_str(), "normal");
    assert_eq!(ThumbFlavor::XXLarge.name_str(), "xx-large");
}

#[test]
fn flavor_unknown_name_is_rejected() {
    assert!(ThumbFlavor::from_name("huge").is_none());
    assert!(ThumbFlavor::from_name("").is_none());
    assert!(ThumbFlavor::from_name("Normal").is_none());
}

#[test]
fn flavor_cache_path() {
    assert_eq!(ThumbFlavor::Normal.cache_path("/root/.cache/thumbnails"),
        "/root/.cache/thumbnails/normal");
    assert_eq!(ThumbFlavor::XLarge.cache_path("c"), "c/x-large");
}

#[test]
fn decimal_rendering() {
    assert_eq!(u64_to_string(0), "0");
    assert_eq!(u64_to_string(7), "7");
    assert_eq!(u64_to_string(1700000000), "1700000000");
    assert_eq!(u64_to_string(u64::MAX), "18446744073709551615");
}

#[test]
fn decimal_parsing() {
    assert_eq!(parse_u64_decimal("0"), Some(0));
    assert_eq!(parse_u64_decimal("01"), Some(1));
    assert_eq!(parse_u64_decimal("18446744073709551615"), Some(u64::MAX));
    assert_eq!(parse_u64_decimal("18446744073709551616"), None);
    assert_eq!(parse_u64_decimal(""), None);
    assert_eq!(parse_u64_decimal("12a"), None);
    assert_eq!(parse_u64_decimal("-3"), None);
}

#[test]
fn hex_rendering() {
    assert_eq!(hex_to_string(&vec![]), "");
    assert_eq!(hex_to_string(&vec![0x00, 0xff, 0x1a]), "00ff1a");
}

#[test]
fn mtime_text_has_six_fraction_digits() {
    assert_eq!(format_mtime(1700000000123456), "1700000000.123456");
    assert_eq!(format_mtime(0), "0.000000");
    assert_eq!(format_mtime(999999), "0.999999");
    assert_eq!(format_mtime(1000000), "1.000000");
}

#[test]
fn mtime_text_round_trip() {
    for m in [0u64, 1, 999999, 1000000, 1700000000123456, u64::MAX] {
        assert_eq!(parse_mtime(&format_mtime(m)), Some(m));
    }
}

#[test]
fn mtime_rejects_malformed_text() {
    assert_eq!(parse_mtime(""), None);
    assert_eq!(parse_mtime("1700000000"), None);
    assert_eq!(parse_mtime("1700000000.12345"), None);
    assert_eq!(parse_mtime("1700000000.1234567"), None);
    assert_eq!(parse_mtime(".123456"), None);
    assert_eq!(parse_mtime("1.2.123456"), None);
    assert_eq!(parse_mtime("x.123456"), None);
}

#[test]
fn fs_meta_equality_is_size_tolerant() {
    let a = ThumbFsMeta::new("file:///a".to_string(), 42, 100);
    let same = ThumbFsMeta::new("file:///a".to_string(), 42, 100);
    let zero_left = ThumbFsMeta::new("file:///a".to_string(), 42, 0);
    let other_size = ThumbFsMeta::new("file:///a".to_string(), 42, 101);
    let other_mtime = ThumbFsMeta::new("file:///a".to_string(), 43, 0);
    let other_uri = ThumbFsMeta::new("file:///b".to_string(), 42, 0);
    assert!(a.same_source(&same));
    assert!(a.same_source(&zero_left));
    assert!(zero_left.same_source(&a));
    assert!(!a.same_source(&other_size));
    assert!(!a.same_source(&other_mtime));
    assert!(!a.same_source(&other_uri));
    assert!(zero_left.same_source(&other_size));
}

#[test]
fn provenance_chunks_round_trip() {
    let fs = ThumbFsMeta::new("file:///photos/cat.png".to_string(), 1700000000123456, 4096);
    let chunks = provenance_chunks(&fs);
    assert_eq!(chunks.len(), 3);
    assert_eq!(chunks[0].0, "Thumb::URI");
    assert_eq!(chunks[0].1, "file:///photos/cat.png");
    assert_eq!(chunks[1].0, "Thumb::MTime");
    assert_eq!(chunks[1].1, "1700000000.123456");
    assert_eq!(chunks[2].0, "Thumb::Size");
    assert_eq!(chunks[2].1, "4096");
    let back = parse_provenance(&chunks).unwrap();
    assert!(back.same_source(&fs));
    assert_eq!(back.uri, fs.uri);
    assert_eq!(back.mtime_micros, fs.mtime_micros);
    assert_eq!(back.size, fs.size);
}

#[test]
fn provenance_parsing_rules() {
    let missing_uri = vec![("Thumb::MTime".to_string(), "1.000000".to_string())];
    assert!(parse_provenance(&missing_uri).is_err());

    let missing_mtime = vec![("Thumb::URI".to_string(), "file:///a".to_string())];
    assert!(parse_provenance(&missing_mtime).is_err());

    let no_size = vec![
        ("Thumb::URI".to_string(), "file:///a".to_string()),
        ("Thumb::MTime".to_string(), "2.500000".to_string()),
        ("Software".to_string(), "something else".to_string()),
    ];
    let parsed = parse_provenance(&no_size).unwrap();
    assert_eq!(parsed.uri, "file:///a");
    assert_eq!(parsed.mtime_micros, 2500000);
    assert_eq!(parsed.size, 0);

    let bad_size = vec![
        ("Thumb::URI".to_string(), "file:///a".to_string()),
        ("Thumb::MTime".to_string(), "2.500000".to_string()),
        ("Thumb::Size".to_string(), "not a number".to_string()),
    ];
    assert_eq!(parse_provenance(&bad_size).unwrap().size, 0);
}

#[test]
fn destination_filename_is_deterministic() {
    let a = destination_filename("/cache/normal", "file:///a.png");
    let b = destination_filename("/cache/normal", "file:///a.png");
    assert_eq!(a, b);
    let c = destination_filename("/cache/normal", "file:///b.png");
    assert_ne!(a, c);
}

#[test]
fn destination_filename_uses_md5_hex() {
    // well-known digests: md5("") and md5("abc")
    assert_eq!(destination_filename("d", ""), "d/d41d8cd98f00b204e9800998ecf8427e.png");
    assert_eq!(destination_filename("d", "abc"), "d/900150983cd24fb0d6963f7d28e17f72.png");
}

#[test]
fn temp_filename_carries_item_id() {
    assert_eq!(temp_filename("d", "abc", 0), "d/900150983cd24fb0d6963f7d28e17f72.tmp0");
    assert_eq!(temp_filename("d", "abc", 17), "d/900150983cd24fb0d6963f7d28e17f72.tmp17");
    assert_ne!(temp_filename("d", "abc", 1), temp_filename("d", "abc", 2));
}

#[test]
fn full_meta_keeps_fields() {
    let fs = ThumbFsMeta::new("file:///a".to_string(), 5, 6);
    let full = ThumbFullMeta::from(fs, 800, 600);
    assert_eq!(full.width, 800);
    assert_eq!(full.height, 600);
    assert_eq!(full.fs.uri, "file:///a");
}
