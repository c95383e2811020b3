use lightspeed::hex::{format_hex_color, parse_hex_color};

#[test]
fn pasted_hex_code_sets_the_colour() {
    assert_eq!(parse_hex_color("#FF00FF"), Some([255, 0, 255]));
}

#[test]
fn hex_codes_in_either_case_and_spacing() {
    assert_eq!(parse_hex_color("ff00ff"), Some([255, 0, 255]));
    assert_eq!(parse_hex_color("  #1a2B3c \t"), Some([0x1a, 0x2b, 0x3c]));
    assert_eq!(parse_hex_color("##00ff00"), Some([0, 255, 0]));
    assert_eq!(parse_hex_color("\u{3000}#000001\n"), Some([0, 0, 1]));
}

#[test]
fn plus_sign_reads_as_unsigned_number() {
    // Six characters: a sign and five digits.
    assert_eq!(parse_hex_color("+12345"), Some([0x01, 0x23, 0x45]));
    assert_eq!(parse_hex_color("#+fffff"), Some([0x0f, 0xff, 0xff]));
    assert_eq!(parse_hex_color("++1234"), None);
    assert_eq!(parse_hex_color("-12345"), None);
}

#[test]
fn malformed_hex_codes_are_ignored() {
    assert_eq!(parse_hex_color(""), None);
    assert_eq!(parse_hex_color("#"), None);
    assert_eq!(parse_hex_color("#FFF"), None);
    assert_eq!(parse_hex_color("#FF00FF0"), None);
    assert_eq!(parse_hex_color("#GG0000"), None);
    assert_eq!(parse_hex_color("FF 00F"), None);
    assert_eq!(parse_hex_color("é12345"), None);
}

#[test]
fn colours_format_as_upper_case_codes() {
    assert_eq!(format_hex_color([255, 0, 255]), "#FF00FF");
    assert_eq!(format_hex_color([1, 0x2b, 0xc0]), "#012BC0");
}

#[test]
fn formatted_codes_read_back() {
    for &rgb in &[[0u8, 0, 0], [255, 255, 255], [18, 52, 86], [171, 205, 239]] {
        assert_eq!(parse_hex_color(&format_hex_color(rgb)), Some(rgb));
    }
}
