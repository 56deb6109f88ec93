use rust_colorpicker::Color;
use rust_colorpicker::ParseColorError;

#[test]
fn parses_supported_hex_forms() {
    assert_eq!(
        Color::parse_hex("#123").unwrap(),
        Color::rgb(0x11, 0x22, 0x33)
    );
    assert_eq!(
        Color::parse_hex("1234").unwrap(),
        Color::rgba(0x11, 0x22, 0x33, 0x44)
    );
    assert_eq!(
        Color::parse_hex("#123456").unwrap(),
        Color::rgb(0x12, 0x34, 0x56)
    );
    assert_eq!(
        Color::parse_hex("12345678").unwrap(),
        Color::rgba(0x12, 0x34, 0x56, 0x78)
    );
}

#[test]
fn rejects_invalid_hex() {
    assert!(Color::parse_hex("#12").is_err());
    assert!(Color::parse_hex("#GG0000").is_err());
}

#[test]
fn colorref_round_trip() {
    let color = Color::rgb(12, 34, 56);
    assert_eq!(Color::from_colorref(color.to_colorref()), color);
}

#[test]
fn display_omits_opaque_alpha() {
    assert_eq!(Color::rgb(1, 2, 3).to_string(), "#010203");
    assert_eq!(Color::rgba(1, 2, 3, 4).to_string(), "#01020304");
}

#[test]
fn hex_formats_are_upper_case_and_padded() {
    let c = Color::rgba(0x0a, 0xbc, 0x00, 0xff);
    assert_eq!(c.to_hex_rgb(), "#0ABC00");
    assert_eq!(c.to_hex_rgba(), "#0ABC00FF");
    assert_eq!(c.to_string(), "#0ABC00");
}

#[test]
fn hex_text_parses_back() {
    for c in [
        Color::rgba(0, 0, 0, 0),
        Color::rgba(255, 255, 255, 255),
        Color::rgba(1, 128, 254, 77),
        Color::rgb(171, 206, 179),
    ] {
        assert_eq!(Color::parse_hex(&c.to_hex_rgba()), Ok(c));
        assert_eq!(Color::parse_hex(&c.to_hex_rgb()), Ok(Color::rgb(c.r, c.g, c.b)));
        assert_eq!(Color::parse_hex(&c.to_string()), Ok(c));
    }
}

#[test]
fn parse_accepts_either_case_and_optional_hash() {
    assert_eq!(Color::parse_hex("abcdef"), Ok(Color::rgb(0xab, 0xcd, 0xef)));
    assert_eq!(Color::parse_hex("#ABCDEF"), Ok(Color::rgb(0xab, 0xcd, 0xef)));
    assert_eq!(Color::parse_hex("#aBc"), Ok(Color::rgb(0xaa, 0xbb, 0xcc)));
}

#[test]
fn parse_rejects_other_lengths_and_signs() {
    for text in ["", "#", "1", "12", "12345", "1234567", "123456789", "##123", "#-12345", "+12"] {
        assert_eq!(Color::parse_hex(text), Err(ParseColorError), "{text}");
    }
}

#[test]
fn parse_takes_hex_digits_only() {
    for text in ["+1+2+3", "#+F00+F+F", "+F+F+F", "1 2", " 123", "12g456", "0x1234"] {
        assert_eq!(Color::parse_hex(text), Err(ParseColorError), "{text}");
    }
}

#[test]
fn parse_rejects_non_ascii_text() {
    for text in ["ééé", "#éééé", "aé", "#€", "a€bc", "#日本", "éé", "日本語です", "１２３"] {
        assert_eq!(Color::parse_hex(text), Err(ParseColorError), "{text}");
    }
}

#[test]
fn from_str_is_parse_hex() {
    assert_eq!("#123".parse::<Color>(), Ok(Color::rgb(0x11, 0x22, 0x33)));
    assert_eq!("nope".parse::<Color>(), Err(ParseColorError));
}

#[test]
fn colorref_layout() {
    assert_eq!(Color::rgb(0x12, 0x34, 0x56).to_colorref(), 0x0056_3412);
    assert_eq!(Color::from_colorref(0xFF56_3412), Color::rgb(0x12, 0x34, 0x56));
    assert_eq!(
        Color::from_colorref_with_alpha(0x0056_3412, 9),
        Color::rgba(0x12, 0x34, 0x56, 9)
    );
    assert_eq!(Color::from_colorref(0xAB12_3456).to_colorref(), 0x0012_3456);
}

#[test]
fn parse_error_message() {
    assert_eq!(
        ParseColorError.to_string(),
        "invalid hex color; expected RGB, RGBA, RRGGBB, or RRGGBBAA"
    );
}
