use glass_core::css_color::{classify_css_color, parse_hex_rgb, CssColorNotation};

#[test]
fn notations_are_recognised_after_trimming() {
    assert_eq!(
        classify_css_color("  #1d4e89 "),
        Some((CssColorNotation::Hex, "1d4e89".to_string()))
    );
    assert_eq!(
        classify_css_color("rgba(29, 78, 137, 0.9)"),
        Some((CssColorNotation::Rgba, "29, 78, 137, 0.9".to_string()))
    );
    assert_eq!(
        classify_css_color("rgb(1,2,3)"),
        Some((CssColorNotation::Rgb, "1,2,3".to_string()))
    );
    assert_eq!(
        classify_css_color("oklab(0.9 0.01 0.02 / 0.75)"),
        Some((CssColorNotation::Oklab, "0.9 0.01 0.02 / 0.75".to_string()))
    );
    assert_eq!(
        classify_css_color("oklch(0.7 0.1 200)"),
        Some((CssColorNotation::Oklch, "0.7 0.1 200".to_string()))
    );
    assert_eq!(classify_css_color("not-a-color"), None);
    assert_eq!(classify_css_color("rgb(1,2,3"), None);
    assert_eq!(classify_css_color("hsl(1,2%,3%)"), None);
}

#[test]
fn hex_colors_give_their_channels() {
    assert_eq!(parse_hex_rgb("1d4e89"), Some((0x1d, 0x4e, 0x89)));
    assert_eq!(parse_hex_rgb("FFF"), Some((255, 255, 255)));
    assert_eq!(parse_hex_rgb("0a3"), Some((0x00, 0xaa, 0x33)));
    assert_eq!(parse_hex_rgb("+abcde"), Some((0x0a, 0xbc, 0xde)));
    assert_eq!(parse_hex_rgb("12345"), None);
    assert_eq!(parse_hex_rgb("zzzzzz"), None);
    assert_eq!(parse_hex_rgb("+ab"), None);
    assert_eq!(parse_hex_rgb(""), None);
}
