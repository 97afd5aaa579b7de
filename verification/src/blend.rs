//! Blend modes and their names in a scene document.

use crate::strings::str_eq;
use vstd::prelude::*;

verus! {

/// How a source is combined with what lies beneath it.
#[derive(Clone, Copy, Debug, PartialEq, Eq, Structural)]
pub enum BlendMode {
    SourceOver,
    Screen,
    Overlay,
    Darken,
    Lighten,
    ColorDodge,
    ColorBurn,
    HardLight,
    SoftLight,
    Difference,
    Exclusion,
    Multiply,
    Hue,
    Saturation,
    Color,
    Luminosity,
    Plus,
    Xor,
}

/// The blend mode that a name stands for. A name outside the list stands for
/// source-over.
pub open spec fn blend_mode_of(name: Seq<char>) -> BlendMode {
    if name == "screen"@ {
        BlendMode::Screen
    } else if name == "overlay"@ {
        BlendMode::Overlay
    } else if name == "darken"@ {
        BlendMode::Darken
    } else if name == "lighten"@ {
        BlendMode::Lighten
    } else if name == "colorDodge"@ {
        BlendMode::ColorDodge
    } else if name == "colorBurn"@ {
        BlendMode::ColorBurn
    } else if name == "hardLight"@ {
        BlendMode::HardLight
    } else if name == "softLight"@ {
        BlendMode::SoftLight
    } else if name == "difference"@ {
        BlendMode::Difference
    } else if name == "exclusion"@ {
        BlendMode::Exclusion
    } else if name == "multiply"@ {
        BlendMode::Multiply
    } else if name == "hue"@ {
        BlendMode::Hue
    } else if name == "saturation"@ {
        BlendMode::Saturation
    } else if name == "color"@ {
        BlendMode::Color
    } else if name == "luminosity"@ {
        BlendMode::Luminosity
    } else if name == "plus"@ {
        BlendMode::Plus
    } else if name == "xor"@ {
        BlendMode::Xor
    } else {
        BlendMode::SourceOver
    }
}

/// Reads a blend mode's name.
pub fn parse_blend_mode(mode: &str) -> (m: BlendMode)
    ensures
        m == blend_mode_of(mode@),
{
    if str_eq(mode, "screen") {
        BlendMode::Screen
    } else if str_eq(mode, "overlay") {
        BlendMode::Overlay
    } else if str_eq(mode, "darken") {
        BlendMode::Darken
    } else if str_eq(mode, "lighten") {
        BlendMode::Lighten
    } else if str_eq(mode, "colorDodge") {
        BlendMode::ColorDodge
    } else if str_eq(mode, "colorBurn") {
        BlendMode::ColorBurn
    } else if str_eq(mode, "hardLight") {
        BlendMode::HardLight
    } else if str_eq(mode, "softLight") {
        BlendMode::SoftLight
    } else if str_eq(mode, "difference") {
        BlendMode::Difference
    } else if str_eq(mode, "exclusion") {
        BlendMode::Exclusion
    } else if str_eq(mode, "multiply") {
        BlendMode::Multiply
    } else if str_eq(mode, "hue") {
        BlendMode::Hue
    } else if str_eq(mode, "saturation") {
        BlendMode::Saturation
    } else if str_eq(mode, "color") {
        BlendMode::Color
    } else if str_eq(mode, "luminosity") {
        BlendMode::Luminosity
    } else if str_eq(mode, "plus") {
        BlendMode::Plus
    } else if str_eq(mode, "xor") {
        BlendMode::Xor
    } else {
        BlendMode::SourceOver
    }
}

} // verus!
