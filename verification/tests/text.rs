//! Digits, joins, trims and splits.

use std::path::Path;
use tcmu::text::{
    decimal, file_name, hex_encode, join, padded_hex, parse_hex_size, split, trim,
};

#[test]
fn digits() {
    assert_eq!(hex_encode(&[0x00, 0x9a, 0xff]), "009aff");
    assert_eq!(hex_encode(&[]), "");
    assert_eq!(decimal(0), "0");
    assert_eq!(decimal(1090), "1090");
    assert_eq!(decimal(u64::MAX), "18446744073709551615");
    assert_eq!(padded_hex(0, 0), "0");
    assert_eq!(padded_hex(0xabc, 5), "00abc");
    assert_eq!(padded_hex(0xabc, 2), "abc");
    assert_eq!(padded_hex(u64::MAX, 15), "ffffffffffffffff");
}

#[test]
fn padded_digits_read_back() {
    for n in [0u64, 7, 0xdead_beef, u32::MAX as u64] {
        assert_eq!(parse_hex_size(&padded_hex(n, 15)), Some(n as usize));
    }
}

#[test]
fn paths_are_joined() {
    for (base, part) in [
        ("/dev", "uio0"),
        ("/dev/", "uio0"),
        ("", "uio0"),
        ("/dev", "/etc"),
        ("/dev", ""),
        ("/", "x"),
    ] {
        assert_eq!(join(base, part), Path::new(base).join(part).to_str().unwrap());
    }
}

#[test]
fn paths_are_named() {
    for path in [
        "/dev/sda", "sda", "/dev/sda/", "/dev/sda/.", "/dev//sda//./", "/", "", ".", "./", "..",
        "/dev/..", "./sda", "/dev/.sda", "...", "a/../b",
    ] {
        let expected = Path::new(path).file_name().and_then(|s| s.to_str());
        assert_eq!(file_name(path).as_deref(), expected, "{path}");
    }
}

#[test]
fn white_space_is_trimmed() {
    assert_eq!(trim(" \t0:0:1\r\n"), "0:0:1");
    assert_eq!(trim("a b"), "a b");
    assert_eq!(trim(" \n "), "");
    assert_eq!(trim(""), "");
    for code in 0..0x1_1000u32 {
        if let Some(c) = char::from_u32(code) {
            let framed = format!("{c}x{c}");
            assert_eq!(trim(&framed), framed.trim(), "{code:x}");
        }
    }
}

#[test]
fn texts_are_split() {
    assert_eq!(split("0:0:1", ':'), vec!["0", "0", "1"]);
    assert_eq!(split("", ':'), vec![""]);
    assert_eq!(split(":a:", ':'), vec!["", "a", ""]);
}

#[test]
fn hexadecimal_sizes() {
    assert_eq!(parse_hex_size("0x0000000041000000\n"), Some(0x4100_0000));
    assert_eq!(parse_hex_size("aF"), Some(0xaf));
    assert_eq!(parse_hex_size("0x0x10"), Some(0x10));
    assert_eq!(parse_hex_size("+10"), Some(0x10));
    assert_eq!(parse_hex_size("ffffffffffffffff"), Some(usize::MAX));
    assert_eq!(parse_hex_size("10000000000000000"), None);
    assert_eq!(parse_hex_size("0x"), None);
    assert_eq!(parse_hex_size(""), None);
    assert_eq!(parse_hex_size("+"), None);
    assert_eq!(parse_hex_size("-1"), None);
    assert_eq!(parse_hex_size("1g"), None);
}
