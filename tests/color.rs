use gls_strip_packing::color::{blend_colors, Color};

#[test]
fn parses_codes_with_and_without_hash() {
    assert_eq!(Color::from_hex("#D3D3D3"), Some(Color(0xD3, 0xD3, 0xD3)));
    assert_eq!(Color::from_hex("ff5e00"), Some(Color(0xFF, 0x5E, 0x00)));
    assert_eq!(Color::from_hex("#12345"), None);
    assert_eq!(Color::from_hex("#GG0000"), None);
    assert_eq!(Color::from_hex(""), None);
}

#[test]
fn writes_upper_case_code() {
    assert_eq!(Color(0xD0, 0x00, 0x0a).to_hex_string(), "#D0000A");
    let c = Color(1, 171, 255);
    assert_eq!(Color::from_hex(&c.to_hex_string()), Some(c));
}

#[test]
fn blend_takes_rounded_down_mean() {
    assert_eq!(blend_colors(Color(0, 255, 10), Color(255, 255, 11)), Color(127, 255, 10));
}
