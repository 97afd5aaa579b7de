use ube_core::color::{parse_color, Rgba8};

fn rgba(r: u8, g: u8, b: u8, a: u8) -> Rgba8 {
    Rgba8 { r, g, b, a }
}

#[test]
fn six_digits_are_opaque() {
    assert_eq!(parse_color("#ff0000"), rgba(255, 0, 0, 255));
    assert_eq!(parse_color("#00ff00"), rgba(0, 255, 0, 255));
    assert_eq!(parse_color("1a2B3c"), rgba(0x1a, 0x2b, 0x3c, 255));
}

#[test]
fn three_digits_scale_by_seventeen() {
    assert_eq!(parse_color("#f80"), rgba(255, 136, 0, 255));
    assert_eq!(parse_color("#123"), rgba(17, 34, 51, 255));
    assert_eq!(parse_color("ABC"), rgba(170, 187, 204, 255));
}

#[test]
fn eight_digits_carry_alpha() {
    assert_eq!(parse_color("#11223344"), rgba(0x11, 0x22, 0x33, 0x44));
    assert_eq!(parse_color("#ffffff00"), rgba(255, 255, 255, 0));
}

#[test]
fn every_leading_hash_is_skipped() {
    assert_eq!(parse_color("###0000ff"), rgba(0, 0, 255, 255));
    assert_eq!(parse_color("##fff"), rgba(255, 255, 255, 255));
}

#[test]
fn other_lengths_are_opaque_white() {
    for s in ["", "#", "#1", "#12", "#1234", "#12345", "#1234567", "#123456789", "red"] {
        let c = parse_color(s);
        if s == "red" {
            // three bytes, none of them a digit but `e` and `d`
            assert_eq!(c, rgba(0, 238, 221, 255));
        } else {
            assert_eq!(c, rgba(255, 255, 255, 255), "{}", s);
        }
    }
}

#[test]
fn invalid_groups_read_as_defaults() {
    assert_eq!(parse_color("#gg0000"), rgba(0, 0, 0, 255));
    assert_eq!(parse_color("#00zz11"), rgba(0, 0, 0x11, 255));
    assert_eq!(parse_color("#000000zz"), rgba(0, 0, 0, 255));
    assert_eq!(parse_color("#x1y"), rgba(0, 17, 0, 255));
    assert_eq!(parse_color("#-10000"), rgba(0, 0, 0, 255));
}

#[test]
fn a_plus_sign_may_lead_a_pair() {
    assert_eq!(parse_color("+f+a+0"), rgba(15, 10, 0, 255));
    assert_eq!(parse_color("#+++"), rgba(0, 0, 0, 255));
}

#[test]
fn bytes_beyond_ascii_never_panic() {
    // three bytes of one character
    assert_eq!(parse_color("\u{20ac}"), rgba(0, 0, 0, 255));
    // six bytes of three characters
    assert_eq!(parse_color("\u{e9}\u{e9}\u{e9}"), rgba(0, 0, 0, 255));
    // a hash and five bytes that split a character
    assert_eq!(parse_color("#a\u{20ac}bc"), rgba(0, 0, 0xbc, 255));
}
