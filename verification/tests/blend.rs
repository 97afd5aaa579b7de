use ube_core::blend::{parse_blend_mode, BlendMode};

#[test]
fn every_name_has_its_mode() {
    let table = [
        ("sourceOver", BlendMode::SourceOver),
        ("screen", BlendMode::Screen),
        ("overlay", BlendMode::Overlay),
        ("darken", BlendMode::Darken),
        ("lighten", BlendMode::Lighten),
        ("colorDodge", BlendMode::ColorDodge),
        ("colorBurn", BlendMode::ColorBurn),
        ("hardLight", BlendMode::HardLight),
        ("softLight", BlendMode::SoftLight),
        ("difference", BlendMode::Difference),
        ("exclusion", BlendMode::Exclusion),
        ("multiply", BlendMode::Multiply),
        ("hue", BlendMode::Hue),
        ("saturation", BlendMode::Saturation),
        ("color", BlendMode::Color),
        ("luminosity", BlendMode::Luminosity),
        ("plus", BlendMode::Plus),
        ("xor", BlendMode::Xor),
    ];
    for (name, mode) in table {
        assert_eq!(parse_blend_mode(name), mode, "{}", name);
    }
}

#[test]
fn unknown_names_fall_back_to_source_over() {
    for name in ["", "normal", "Screen", "multiply ", "color-dodge", "XOR"] {
        assert_eq!(parse_blend_mode(name), BlendMode::SourceOver, "{}", name);
    }
}
