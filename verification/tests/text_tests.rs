use replay_toolbox::{format_u64, format_u64_padded, parse_i32, parse_i64, parse_usize,
    sanitize_friendly_name, utf16_le_bytes};

#[test]
fn parse_i64_matches_std() {
    for s in [
        "0", "42", "+42", "-42", "9223372036854775807", "-9223372036854775808",
        "9223372036854775808", "-9223372036854775809", "99999999999999999999999", "", "+", "-",
        "12a", "a12", "--1", "+-1", " 1", "1 ",
    ] {
        assert_eq!(parse_i64(s), s.parse::<i64>().ok(), "input {:?}", s);
    }
}

#[test]
fn parse_i32_matches_std() {
    for s in ["0", "-2147483648", "2147483647", "2147483648", "-2147483649", "7x", "+12"] {
        assert_eq!(parse_i32(s), s.parse::<i32>().ok(), "input {:?}", s);
    }
}

#[test]
fn parse_usize_matches_std() {
    let max = usize::MAX.to_string();
    let over = format!("{}0", max);
    for s in ["0", "42", "+42", "-1", "-0", "", "1.5", max.as_str(), over.as_str()] {
        assert_eq!(parse_usize(s), s.parse::<usize>().ok(), "input {:?}", s);
    }
}

#[test]
fn decimal_rendering() {
    assert_eq!(format_u64(0), "0");
    assert_eq!(format_u64(12345), "12345");
    assert_eq!(format_u64(u64::MAX), u64::MAX.to_string());
    assert_eq!(format_u64_padded(7, 4), "0007");
    assert_eq!(format_u64_padded(12345, 2), "12345");
    assert_eq!(format_u64_padded(0, 2), "00");
}

#[test]
fn sanitizing_replaces_path_characters() {
    assert_eq!(sanitize_friendly_name("My Map: A/B\\C"), "My-Map--A-B-C");
    assert_eq!(sanitize_friendly_name("plain"), "plain");
    assert_eq!(sanitize_friendly_name(""), "");
}

#[test]
fn utf16_encoding_matches_std() {
    for s in ["", "AB", "Grüße", "😀x", "a😀b🦀"] {
        let expected: Vec<u8> = s.encode_utf16().flat_map(|u| u.to_le_bytes()).collect();
        assert_eq!(utf16_le_bytes(s), expected, "input {:?}", s);
    }
    assert_eq!(utf16_le_bytes("AB"), vec![65, 0, 66, 0]);
    // a supplementary character becomes a surrogate pair
    assert_eq!(utf16_le_bytes("😀"), vec![0x3D, 0xD8, 0x00, 0xDE]);
}
